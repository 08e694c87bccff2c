use shlib::builtins::{all, cd, cd_failure, echo, exit, history, run, run_builtin, type_of, Outcome};
use shlib::command::{Builtin, Command, Execution};
use shlib::external::status_of;
use shlib::history::History;
use shlib::number::{parse_i32, parse_usize};

fn strings(items: &[&str]) -> Vec<String> {
    items.iter().map(|s| s.to_string()).collect()
}

fn chars(s: &str) -> Vec<char> {
    s.chars().collect()
}

#[test]
fn the_builtin_names() {
    assert_eq!(all(), vec!["cd", "echo", "exit", "history", "pwd", "type"]);
}

#[test]
fn echo_joins_with_spaces() {
    let mut out = String::new();
    let mut err = String::new();
    echo(&strings(&["a", "b  c", "d"]), &mut out, &mut err);
    assert_eq!(out, "a b  c d\n");
    echo(&strings(&[]), &mut out, &mut err);
    assert_eq!(out, "a b  c d\n\n");
    assert_eq!(err, "");
}

#[test]
fn type_of_reports() {
    let mut out = String::new();
    let mut err = String::new();
    type_of(&strings(&[]), None, &mut out, &mut err);
    assert_eq!((out.as_str(), err.as_str()), ("", ""));
    type_of(&strings(&["echo"]), Some("/bin/echo".to_string()), &mut out, &mut err);
    assert_eq!(out, "echo is a shell builtin\n");
    type_of(&strings(&["ls"]), Some("/bin/ls".to_string()), &mut out, &mut err);
    assert_eq!(out, "echo is a shell builtin\nls is /bin/ls\n");
    type_of(&strings(&["nope"]), None, &mut out, &mut err);
    assert_eq!(err, "nope: not found\n");
}

#[test]
fn cd_falls_back_to_the_root() {
    assert_eq!(cd(&strings(&[]), None), "/");
    assert_eq!(cd(&strings(&["~"]), None), "/");
    assert_eq!(cd(&strings(&[]), Some("/home/u".to_string())), "/home/u");
    assert_eq!(cd(&strings(&["~"]), Some("/home/u".to_string())), "/home/u");
    assert_eq!(cd(&strings(&["/tmp", "x"]), Some("/home/u".to_string())), "/tmp");
    assert_eq!(cd(&strings(&["~x"]), Some("/home/u".to_string())), "~x");
}

#[test]
fn cd_failure_names_the_path() {
    assert_eq!(cd_failure("/no/such"), "cd: /no/such: No such file or directory\n");
}

#[test]
fn exit_status_defaults_to_zero() {
    assert_eq!(exit(&strings(&[])), 0);
    assert_eq!(exit(&strings(&["3"])), 3);
    assert_eq!(exit(&strings(&["-1"])), -1);
    assert_eq!(exit(&strings(&["+7", "9"])), 7);
    assert_eq!(exit(&strings(&["x"])), 0);
    assert_eq!(exit(&strings(&["2147483648"])), 0);
    assert_eq!(exit(&strings(&["-2147483648"])), i32::MIN);
}

#[test]
fn numbers_are_read_as_std_reads_them() {
    for s in ["", "+", "-", "0", "007", "+12", "-12", "12a", " 1", "1 ", "--1", "+-1",
        "2147483647", "2147483648", "-2147483648", "-2147483649", "99999999999999999999999"] {
        assert_eq!(parse_i32(&chars(s)), s.parse::<i32>().ok());
        assert_eq!(parse_usize(&chars(s)), s.parse::<usize>().ok());
    }
    assert_eq!(parse_usize(&chars("18446744073709551615")), "18446744073709551615".parse::<usize>().ok());
    assert_eq!(parse_usize(&chars("18446744073709551616")), None);
}

#[test]
fn history_lists_and_clears() {
    let mut store = History::open(strings(&["a", "b", "c"]));
    let mut out = String::new();
    let mut err = String::new();
    assert_eq!(history(&strings(&[]), &mut store, &mut out, &mut err), Outcome::Done);
    assert_eq!(out, "    1 a\n    2 b\n    3 c\n");
    out.clear();
    assert_eq!(history(&strings(&["2"]), &mut store, &mut out, &mut err), Outcome::Done);
    assert_eq!(out, "    2 b\n    3 c\n");
    assert_eq!(history(&strings(&["-c"]), &mut store, &mut out, &mut err), Outcome::Done);
    assert_eq!(store.len(), 0);
    assert_eq!(err, "");
}

#[test]
fn history_names_the_file() {
    let mut store = History::open(strings(&["a"]));
    let mut out = String::new();
    let mut err = String::new();
    assert_eq!(
        history(&strings(&["-r", "f"]), &mut store, &mut out, &mut err),
        Outcome::ReadHistory("f".to_string())
    );
    assert_eq!(
        history(&strings(&["-w", "g"]), &mut store, &mut out, &mut err),
        Outcome::WriteHistory("g".to_string())
    );
    assert_eq!(
        history(&strings(&["-a", "h"]), &mut store, &mut out, &mut err),
        Outcome::AppendHistory("h".to_string())
    );
    assert_eq!((out.as_str(), err.as_str()), ("", ""));
    assert_eq!(store.len(), 1);
}

#[test]
fn history_refuses_bad_arguments() {
    let mut store = History::open(strings(&["a"]));
    let mut out = String::new();
    let mut err = String::new();
    assert_eq!(history(&strings(&["-x"]), &mut store, &mut out, &mut err), Outcome::Done);
    assert_eq!(err, "history: -x: invalid option\n");
    err.clear();
    assert_eq!(history(&strings(&["abc"]), &mut store, &mut out, &mut err), Outcome::Done);
    assert_eq!(err, "history: abc: numeric argument required\n");
    err.clear();
    assert_eq!(history(&strings(&["-w"]), &mut store, &mut out, &mut err), Outcome::Done);
    assert_eq!(err, "history: -w: option requires an argument\n");
    assert_eq!(out, "");
    assert_eq!(store.len(), 1);
}

#[test]
fn run_builtin_dispatches_by_name() {
    let mut store = History::open(Vec::new());
    let mut out = String::new();
    let mut err = String::new();
    assert_eq!(
        run_builtin("ls", &strings(&[]), &mut store, None, None, &mut out, &mut err),
        None
    );
    assert_eq!(
        run_builtin("echo", &strings(&["hi"]), &mut store, None, None, &mut out, &mut err),
        Some(Outcome::Done)
    );
    assert_eq!(out, "hi\n");
    assert_eq!(
        run_builtin("cd", &strings(&[]), &mut store, None, None, &mut out, &mut err),
        Some(Outcome::ChangeDir("/".to_string()))
    );
    assert_eq!(
        run_builtin("exit", &strings(&["4"]), &mut store, None, None, &mut out, &mut err),
        Some(Outcome::Exit(4))
    );
    assert_eq!(
        run_builtin("pwd", &strings(&[]), &mut store, None, None, &mut out, &mut err),
        Some(Outcome::WorkingDir)
    );
    assert_eq!(
        run(Builtin::Type, &strings(&["x"]), &mut store, None, None, &mut out, &mut err),
        Outcome::Done
    );
    assert_eq!(err, "x: not found\n");
}

#[test]
fn stages_run_or_ask_to_be_spawned() {
    let mut store = History::open(Vec::new());
    let mut out = String::new();
    let mut err = String::new();
    let mut echo_stage = Command::new();
    echo_stage.push_arg("echo");
    echo_stage.push_arg("hi");
    assert_eq!(echo_stage.lookup_name(), None);
    assert_eq!(
        echo_stage.execute_to_output(&mut out, &mut err, &mut store, None, None),
        Execution::Ran(Outcome::Done)
    );
    assert_eq!(out, "hi\n");
    let mut ls = Command::new();
    ls.push_arg("ls");
    assert_eq!(ls.lookup_name(), Some("ls".to_string()));
    assert_eq!(
        ls.execute_to_output(&mut out, &mut err, &mut store, None, Some("/bin/ls".to_string())),
        Execution::Spawn("/bin/ls".to_string())
    );
    assert_eq!(
        ls.execute_to_output(&mut out, &mut err, &mut store, None, None),
        Execution::NotFound
    );
    assert_eq!(err, "ls: command not found\n");
    assert_eq!(out, "hi\n");
}

#[test]
fn status_of_a_process() {
    assert_eq!(status_of(Some(0)), 0);
    assert_eq!(status_of(Some(3)), 3);
    assert_eq!(status_of(None), 128);
}
