use shlib::token::{tokenize, ParseError, RedirectType, Token};

fn arg(s: &str) -> Token {
    Token::Arg(s.to_string())
}

fn redirect(type_: RedirectType, path: &str, append: bool) -> Token {
    Token::Redirect { type_, path: path.to_string(), append }
}

#[test]
fn plain_words_round_trip() {
    let line = "ls -la /tmp/some.file x";
    let tokens = tokenize(line).unwrap();
    let mut texts: Vec<String> = Vec::new();
    for token in tokens {
        match token {
            Token::Arg(text) => texts.push(text),
            _ => panic!("only arguments expected"),
        }
    }
    assert_eq!(texts.join(" "), line);
}

#[test]
fn quotes_keep_blanks() {
    assert_eq!(
        tokenize("echo 'hello world' \"foo bar\""),
        Ok(vec![arg("echo"), arg("hello world"), arg("foo bar")])
    );
}

#[test]
fn backslash_keeps_the_next_character() {
    assert_eq!(tokenize("echo hello\\ world"), Ok(vec![arg("echo"), arg("hello world")]));
    assert_eq!(tokenize("echo \\\"hi\\\""), Ok(vec![arg("echo"), arg("\"hi\"")]));
}

#[test]
fn single_quotes_are_literal() {
    assert_eq!(tokenize("echo 'a\\b \"c\"'"), Ok(vec![arg("echo"), arg("a\\b \"c\"")]));
}

#[test]
fn double_quotes_escape_only_a_few_characters() {
    assert_eq!(
        tokenize("echo \"a\\$b\\`c\\\"d\\\\e\\nf\""),
        Ok(vec![arg("echo"), arg("a$b`c\"d\\e\\nf")])
    );
    assert_eq!(tokenize("\"a\\\nb\""), Ok(vec![arg("a\nb")]));
}

#[test]
fn adjacent_pieces_make_one_argument() {
    assert_eq!(tokenize("a'b c'\"d\"e"), Ok(vec![arg("ab cde")]));
    assert_eq!(tokenize("''"), Ok(vec![]));
}

#[test]
fn blanks_collapse() {
    assert_eq!(tokenize("  a \t b\r\n"), Ok(vec![arg("a"), arg("b")]));
    assert_eq!(tokenize(""), Ok(vec![]));
    assert_eq!(tokenize(" \t "), Ok(vec![]));
}

#[test]
fn redirection_to_a_file() {
    assert_eq!(
        tokenize("ls > out.txt"),
        Ok(vec![arg("ls"), redirect(RedirectType::Stdout, "out.txt", false)])
    );
    assert_eq!(
        tokenize("ls >> out.txt"),
        Ok(vec![arg("ls"), redirect(RedirectType::Stdout, "out.txt", true)])
    );
    assert_eq!(
        tokenize("cmd 2> err.txt"),
        Ok(vec![arg("cmd"), redirect(RedirectType::Stderr, "err.txt", false)])
    );
    assert_eq!(
        tokenize("cmd &>>all.txt next"),
        Ok(vec![arg("cmd"), redirect(RedirectType::Both, "all.txt", true), arg("next")])
    );
}

#[test]
fn word_before_the_redirection_selects_the_stream() {
    assert_eq!(
        tokenize("echo foo>out"),
        Ok(vec![arg("echo"), redirect(RedirectType::Stdout, "out", false)])
    );
    assert_eq!(
        tokenize("echo 2 > out"),
        Ok(vec![arg("echo"), arg("2"), redirect(RedirectType::Stdout, "out", false)])
    );
    assert_eq!(tokenize(">>a>b"), Ok(vec![redirect(RedirectType::Stdout, "a>b", true)]));
}

#[test]
fn redirection_path_ends_at_a_pipe() {
    assert_eq!(
        tokenize("a >f|b"),
        Ok(vec![arg("a"), redirect(RedirectType::Stdout, "f", false), Token::Pipe, arg("b")])
    );
}

#[test]
fn redirection_without_a_path_is_refused() {
    assert_eq!(tokenize("ls >"), Err(ParseError::MissingRedirectTarget));
    assert_eq!(tokenize("ls >>   "), Err(ParseError::MissingRedirectTarget));
    assert_eq!(tokenize("ls > | wc"), Err(ParseError::MissingRedirectTarget));
}

#[test]
fn pipes_separate_commands() {
    assert_eq!(
        tokenize("cat f|grep x | wc"),
        Ok(vec![arg("cat"), arg("f"), Token::Pipe, arg("grep"), arg("x"), Token::Pipe, arg("wc")])
    );
}

#[test]
fn unterminated_quote_is_refused() {
    assert_eq!(tokenize("echo \"hello"), Err(ParseError::UnterminatedQuote));
    assert_eq!(tokenize("echo 'hello"), Err(ParseError::UnterminatedQuote));
    assert_eq!(tokenize("echo \"hello\\"), Err(ParseError::UnterminatedQuote));
}

#[test]
fn trailing_backslash_is_refused() {
    assert_eq!(tokenize("echo hello\\"), Err(ParseError::TrailingBackslash));
}

#[test]
fn trailing_pipe_asks_for_more() {
    assert_eq!(tokenize("ls |"), Err(ParseError::UnfinishedPipe));
    assert_eq!(tokenize("ls | \t"), Err(ParseError::UnfinishedPipe));
    assert!(ParseError::UnfinishedPipe.wants_more_input());
    assert!(ParseError::UnterminatedQuote.wants_more_input());
    assert!(!ParseError::TrailingBackslash.wants_more_input());
    assert!(!ParseError::MissingRedirectTarget.wants_more_input());
    assert!(!ParseError::EmptyCommand.wants_more_input());
}

#[test]
fn error_messages() {
    assert_eq!(ParseError::UnterminatedQuote.message(), "Unpaired quote");
    assert_eq!(ParseError::TrailingBackslash.message(), "Trailing backslash");
    assert_eq!(ParseError::MissingRedirectTarget.message(), "No file specified for redirection");
    assert_eq!(ParseError::EmptyCommand.message(), "Empty command before pipe");
    assert_eq!(ParseError::UnfinishedPipe.message(), "Unfinished pipe");
}
