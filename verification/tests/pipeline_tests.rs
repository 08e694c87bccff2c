use shlib::command::{Builtin, Command, Redirect};
use shlib::pipeline::{ErrorOutput, Input, Output, Pipeline, StagePlan};
use shlib::token::{ParseError, RedirectType, Token};

fn strings(items: &[&str]) -> Vec<String> {
    items.iter().map(|s| s.to_string()).collect()
}

fn stage_is(c: &Command, name: &str, args: &[&str]) {
    assert_eq!(c.name(), name);
    assert_eq!(c.args(), &strings(args));
}

#[test]
fn three_stages_in_order() {
    let p = Pipeline::new("cat f | grep x | wc -l").unwrap();
    assert_eq!(p.len(), 3);
    stage_is(p.stage(0), "cat", &["f"]);
    stage_is(p.stage(1), "grep", &["x"]);
    stage_is(p.stage(2), "wc", &["-l"]);
    for i in 0..3 {
        assert!(p.stage(i).redirects().is_empty());
    }
}

#[test]
fn empty_line_has_no_stage() {
    assert_eq!(Pipeline::new("").unwrap().len(), 0);
    assert_eq!(Pipeline::new("   ").unwrap().len(), 0);
    assert!(Pipeline::new("").unwrap().plan().is_empty());
}

#[test]
fn pipe_without_command_is_refused() {
    assert!(matches!(Pipeline::new("| wc"), Err(ParseError::EmptyCommand)));
    assert!(matches!(Pipeline::new("ls | | wc"), Err(ParseError::EmptyCommand)));
    assert!(matches!(Pipeline::new("> out | wc"), Err(ParseError::EmptyCommand)));
}

#[test]
fn stage_without_arguments_is_refused() {
    assert!(matches!(Pipeline::new("ls | > out"), Err(ParseError::EmptyCommand)));
    assert!(matches!(Pipeline::new("> out"), Err(ParseError::EmptyCommand)));
    let tokens = vec![Token::Arg("ls".to_string()), Token::Pipe];
    assert!(matches!(Pipeline::parse_tokens(tokens), Err(ParseError::EmptyCommand)));
}

#[test]
fn tokenizer_errors_pass_through() {
    assert!(matches!(Pipeline::new("echo 'a"), Err(ParseError::UnterminatedQuote)));
    assert!(matches!(Pipeline::new("ls >"), Err(ParseError::MissingRedirectTarget)));
    assert!(matches!(Pipeline::new("ls |"), Err(ParseError::UnfinishedPipe)));
}

#[test]
fn redirect_token_without_path_is_refused() {
    let tokens = vec![
        Token::Arg("ls".to_string()),
        Token::Redirect { type_: RedirectType::Stdout, path: String::new(), append: false },
    ];
    assert!(matches!(Pipeline::parse_tokens(tokens), Err(ParseError::MissingRedirectTarget)));
}

#[test]
fn redirections_attach_in_order() {
    let p = Pipeline::new("ls > a 2> b >> c | wc &> d").unwrap();
    assert_eq!(p.len(), 2);
    let first = p.stage(0);
    assert_eq!(
        first.redirects(),
        &vec![
            Redirect { type_: RedirectType::Stdout, path: "a".to_string(), append: false },
            Redirect { type_: RedirectType::Stderr, path: "b".to_string(), append: false },
            Redirect { type_: RedirectType::Stdout, path: "c".to_string(), append: true },
        ]
    );
    assert_eq!(first.output_redirect(), Some(2));
    assert_eq!(first.error_redirect(), Some(1));
    let second = p.stage(1);
    assert_eq!(second.output_redirect(), Some(0));
    assert_eq!(second.error_redirect(), Some(0));
}

#[test]
fn single_stage_inherits_the_streams() {
    let p = Pipeline::new("ls -l").unwrap();
    assert_eq!(
        p.plan(),
        vec![StagePlan {
            builtin: None,
            input: Input::Inherited,
            output: Output::Inherited,
            errors: ErrorOutput::Inherited,
            detached: false,
        }]
    );
}

#[test]
fn processes_are_chained_by_pipes() {
    let plan = Pipeline::new("cat f | grep x | wc -l").unwrap().plan();
    assert_eq!(plan.len(), 3);
    assert_eq!((plan[0].input, plan[0].output), (Input::Inherited, Output::Piped));
    assert_eq!((plan[1].input, plan[1].output), (Input::Piped, Output::Piped));
    assert_eq!((plan[2].input, plan[2].output), (Input::Piped, Output::Inherited));
    assert!(plan.iter().all(|s| s.builtin.is_none() && !s.detached));
}

#[test]
fn builtin_before_builtin_is_discarded() {
    let plan = Pipeline::new("history | history").unwrap().plan();
    assert_eq!(plan.len(), 2);
    assert_eq!(plan[0].builtin, Some(Builtin::History));
    assert_eq!(plan[0].output, Output::Discarded);
    assert!(!plan[0].detached);
    assert_eq!(plan[0].input, Input::Unused);
    assert_eq!(plan[1].builtin, Some(Builtin::History));
    assert_eq!(plan[1].output, Output::Inherited);
    assert_eq!(plan[1].input, Input::Unused);
}

#[test]
fn builtin_feeds_a_process_from_a_thread() {
    let p = Pipeline::new("echo hi | cat > /tmp/x").unwrap();
    let plan = p.plan();
    assert_eq!(
        plan[0],
        StagePlan {
            builtin: Some(Builtin::Echo),
            input: Input::Unused,
            output: Output::Piped,
            errors: ErrorOutput::Inherited,
            detached: true,
        }
    );
    assert_eq!(
        plan[1],
        StagePlan {
            builtin: None,
            input: Input::Piped,
            output: Output::File(0),
            errors: ErrorOutput::Inherited,
            detached: false,
        }
    );
    assert_eq!(p.stage(1).redirects()[0].path, "/tmp/x");
}

#[test]
fn process_before_builtin_is_dropped() {
    let plan = Pipeline::new("ls | pwd").unwrap().plan();
    assert_eq!(plan[0].output, Output::Dropped);
    assert_eq!(plan[1].builtin, Some(Builtin::Pwd));
    assert_eq!(plan[1].input, Input::Unused);
}

#[test]
fn redirected_output_leaves_the_next_stage_empty() {
    let plan = Pipeline::new("ls > f | wc 2> e").unwrap().plan();
    assert_eq!(plan[0].output, Output::File(0));
    assert_eq!(plan[1].input, Input::Empty);
    assert_eq!(plan[1].errors, ErrorOutput::File(0));
}

#[test]
fn first_word_is_the_name() {
    let mut c = Command::new();
    assert!(c.is_empty());
    c.push_arg("type");
    assert!(!c.is_empty());
    assert!(c.is_builtin());
    c.push_arg("ls");
    stage_is(&c, "type", &["ls"]);
    assert_eq!(c.lookup_name(), Some("ls".to_string()));
    let mut d = Command::new();
    d.push_arg("Echo");
    assert!(!d.is_builtin());
    assert_eq!(d.builtin(), None);
    assert_eq!(d.lookup_name(), Some("Echo".to_string()));
}

#[test]
fn redirections_need_a_path() {
    let mut c = Command::new();
    c.push_arg("ls");
    assert_eq!(c.set_output(String::new(), false), Err(ParseError::MissingRedirectTarget));
    assert_eq!(c.set_err(String::new(), true), Err(ParseError::MissingRedirectTarget));
    assert!(c.redirects().is_empty());
    assert_eq!(c.set_output("o".to_string(), false), Ok(()));
    assert_eq!(c.set_err("e".to_string(), true), Ok(()));
    assert_eq!(c.add_redirect(RedirectType::Both, "b".to_string(), false), Ok(()));
    assert_eq!(c.redirects().len(), 3);
    assert_eq!(c.output_redirect(), Some(2));
    assert_eq!(c.error_redirect(), Some(2));
}

#[test]
fn builtin_names() {
    for b in Builtin::every() {
        assert_eq!(Builtin::from_name(b.name()), Some(b));
    }
    assert_eq!(Builtin::from_name("cd"), Some(Builtin::Cd));
    assert_eq!(Builtin::from_name("CD"), None);
    assert_eq!(Builtin::from_name(""), None);
    assert_eq!(Builtin::from_name("ls"), None);
}
