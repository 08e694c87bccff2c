use shlib::parse::{parse, parse_simple, split_by_pipe, tokenize, Command};

#[test]
fn test_simple_command() {
    let input = "ls -la";
    let expected = Command::SimpleCommand("ls".to_string(), vec!["-la".to_string()]);
    assert_eq!(parse(input), expected);
}

#[test]
fn test_quoted_arguments() {
    let input = "echo 'hello world' \"foo bar\"";
    let expected = Command::SimpleCommand(
        "echo".to_string(),
        vec!["hello world".to_string(), "foo bar".to_string()],
    );
    assert_eq!(parse(input), expected);
}

#[test]
fn test_mixed_quotes() {
    let input = "echo \"it's me\" 'said \"hello\"'";
    let expected = Command::SimpleCommand(
        "echo".to_string(),
        vec!["it's me".to_string(), "said \"hello\"".to_string()],
    );
    assert_eq!(parse(input), expected);
}

#[test]
fn test_escaped_characters() {
    let input = "echo hello\\ world";
    let expected = Command::SimpleCommand(
        "echo".to_string(),
        vec!["hello world".to_string()],
    );
    assert_eq!(parse(input), expected);
}

#[test]
fn test_escaped_quotes() {
    let input = "echo \\\"hello\\\"";
    let expected = Command::SimpleCommand(
        "echo".to_string(),
        vec!["\"hello\"".to_string()],
    );
    assert_eq!(parse(input), expected);
}

#[test]
fn test_pipe_command() {
    let input = "cat file.txt | grep pattern";
    let expected = Command::PipeCommand(vec![
        Command::SimpleCommand(
            "cat".to_string(),
            vec!["file.txt".to_string()],
        ),
        Command::SimpleCommand(
            "grep".to_string(),
            vec!["pattern".to_string()],
        ),
    ]);
    assert_eq!(parse(input), expected);
}

#[test]
fn test_multiple_pipes() {
    let input = "cat file | grep foo | wc -l";
    let expected = Command::PipeCommand(vec![
        Command::SimpleCommand(
            "cat".to_string(),
            vec!["file".to_string()],
        ),
        Command::SimpleCommand(
            "grep".to_string(),
            vec!["foo".to_string()],
        ),
        Command::SimpleCommand(
            "wc".to_string(),
            vec!["-l".to_string()],
        ),
    ]);
    assert_eq!(parse(input), expected);
}

#[test]
fn test_pipe_with_quotes() {
    let input = "echo 'foo | bar' | cat";
    let expected = Command::PipeCommand(vec![
        Command::SimpleCommand(
            "echo".to_string(),
            vec!["foo | bar".to_string()],
        ),
        Command::SimpleCommand("cat".to_string(), vec![]),
    ]);
    assert_eq!(parse(input), expected);
}

#[test]
fn test_unpaired_quote() {
    let input = "echo \"hello";
    match parse(input) {
        Command::InvalidCommand(msg) => assert_eq!(msg, "Unpaired quote"),
        _ => panic!("Expected InvalidCommand"),
    }
}

#[test]
fn test_trailing_backslash() {
    let input = "echo hello\\";
    match parse(input) {
        Command::InvalidCommand(msg) => assert_eq!(msg, "Trailing backslash"),
        _ => panic!("Expected InvalidCommand"),
    }
}

#[test]
fn test_empty_command() {
    let input = "";
    match parse(input) {
        Command::InvalidCommand(msg) => assert_eq!(msg, "Empty command"),
        _ => panic!("Expected InvalidCommand"),
    }
}

#[test]
fn test_whitespace_only() {
    let input = "   ";
    match parse(input) {
        Command::InvalidCommand(msg) => assert_eq!(msg, "Empty command"),
        _ => panic!("Expected InvalidCommand"),
    }
}

#[test]
fn parse_ignores_unicode_space_around_the_line() {
    let expected = Command::SimpleCommand("ls".to_string(), vec![]);
    assert_eq!(parse("\u{2003}ls\u{a0}\t"), expected);
}

#[test]
fn parse_reports_an_empty_part_between_pipes() {
    match parse("ls | | wc") {
        Command::InvalidCommand(msg) => assert_eq!(msg, "Empty command"),
        _ => panic!("Expected InvalidCommand"),
    }
}

#[test]
fn parse_simple_takes_name_and_arguments() {
    let expected = Command::SimpleCommand("a".to_string(), vec!["b".to_string(), "c d".to_string()]);
    assert_eq!(parse_simple("a\tb 'c d'"), expected);
    assert_eq!(parse_simple("  "), Command::InvalidCommand("Empty command".to_string()));
}

#[test]
fn words_keep_backslash_inside_single_quotes() {
    assert_eq!(tokenize("'a\\b' c\\d"), Ok(vec!["a\\b".to_string(), "cd".to_string()]));
    assert_eq!(tokenize("a\\"), Err("Trailing backslash".to_string()));
    assert_eq!(tokenize("'a"), Err("Unpaired quote".to_string()));
}

#[test]
fn split_keeps_quotes_and_backslashes() {
    assert_eq!(
        split_by_pipe("a 'b|c' | d\\|e|"),
        Ok(vec!["a 'b|c' ".to_string(), " d\\|e".to_string(), "".to_string()])
    );
    assert_eq!(split_by_pipe("a \"b"), Err("Unpaired quote".to_string()));
    assert_eq!(split_by_pipe("a\\"), Err("Trailing backslash".to_string()));
}
