use shlib::history::History;
use shlib::state::{longest_common_prefix, Action, Completion, Editor, Key, Query, Step};

fn strings(items: &[&str]) -> Vec<String> {
    items.iter().map(|s| s.to_string()).collect()
}

fn typed(text: &str, history: &mut History) -> Editor {
    let mut e = Editor::new(history.len());
    for c in text.chars() {
        e.process_input(Key::Char(c), history);
    }
    e
}

#[test]
fn starts_empty() {
    let e = Editor::new(3);
    assert_eq!(e.line(), "");
    assert_eq!(e.cursor(), 0);
    assert!(e.input().is_empty());
}

#[test]
fn characters_go_in_at_the_cursor() {
    let mut h = History::open(Vec::new());
    let mut e = Editor::new(0);
    assert_eq!(e.process_input(Key::Char('a'), &mut h), Step::Show(Action::Insert { back: 0 }));
    assert_eq!(e.process_input(Key::Char('c'), &mut h), Step::Show(Action::Insert { back: 0 }));
    assert_eq!(e.process_input(Key::Left, &mut h), Step::Show(Action::Left));
    assert_eq!(e.process_input(Key::Char('b'), &mut h), Step::Show(Action::Insert { back: 1 }));
    assert_eq!(e.line(), "abc");
    assert_eq!(e.cursor(), 2);
}

#[test]
fn backspace_and_arrows_stop_at_the_ends() {
    let mut h = History::open(Vec::new());
    let mut e = typed("ab", &mut h);
    assert_eq!(e.process_input(Key::Right, &mut h), Step::Show(Action::Nothing));
    assert_eq!(e.process_input(Key::Backspace, &mut h), Step::Show(Action::Erase));
    assert_eq!(e.line(), "a");
    assert_eq!(e.process_input(Key::Left, &mut h), Step::Show(Action::Left));
    assert_eq!(e.process_input(Key::Left, &mut h), Step::Show(Action::Nothing));
    assert_eq!(e.process_input(Key::Backspace, &mut h), Step::Show(Action::Bell));
    assert_eq!(e.process_input(Key::Right, &mut h), Step::Show(Action::Right));
    assert_eq!(e.line(), "a");
    assert_eq!(e.cursor(), 1);
    assert_eq!(e.process_input(Key::Other, &mut h), Step::Show(Action::Nothing));
    assert_eq!(e.process_input(Key::Ctrl('x'), &mut h), Step::Show(Action::Nothing));
}

#[test]
fn enter_records_and_clears() {
    let mut h = History::open(strings(&["old"]));
    let mut e = typed("ls -l", &mut h);
    assert_eq!(e.process_input(Key::Char('\n'), &mut h), Step::Submit("ls -l".to_string()));
    assert_eq!(e.line(), "");
    assert_eq!(e.cursor(), 0);
    assert_eq!(h.lines_to_write(), strings(&["old", "ls -l"]));
    assert_eq!(e.process_input(Key::Char('\n'), &mut h), Step::Submit(String::new()));
    assert_eq!(h.len(), 2);
    assert_eq!(e.process_input(Key::Up, &mut h), Step::Show(Action::Redraw));
    assert_eq!(e.line(), "ls -l");
}

#[test]
fn control_keys() {
    let mut h = History::open(Vec::new());
    let mut e = Editor::new(0);
    assert_eq!(e.process_input(Key::Ctrl('d'), &mut h), Step::Exit);
    e.process_input(Key::Char('e'), &mut h);
    e.process_input(Key::Char('c'), &mut h);
    e.process_input(Key::Left, &mut h);
    assert_eq!(e.process_input(Key::Ctrl('d'), &mut h), Step::ShowCommands("e".to_string()));
    assert_eq!(e.line(), "ec");
    assert_eq!(e.process_input(Key::Ctrl('c'), &mut h), Step::Cancel);
    assert_eq!(e.line(), "");
    assert_eq!(h.len(), 0);
    assert_eq!(e.show_completions(&strings(&[])), Action::Bell);
    assert_eq!(e.show_completions(&strings(&["echo"])), Action::List);
}

#[test]
fn walking_the_history_keeps_edits() {
    let mut h = History::open(strings(&["one", "two"]));
    let mut e = typed("dra", &mut h);
    assert_eq!(e.process_input(Key::Down, &mut h), Step::Show(Action::Bell));
    assert_eq!(e.process_input(Key::Up, &mut h), Step::Show(Action::Redraw));
    assert_eq!(e.line(), "two");
    assert_eq!(e.cursor(), 3);
    e.process_input(Key::Char('!'), &mut h);
    assert_eq!(e.process_input(Key::Up, &mut h), Step::Show(Action::Redraw));
    assert_eq!(e.line(), "one");
    assert_eq!(h.lines_to_write(), strings(&["one", "two!"]));
    assert_eq!(e.process_input(Key::Up, &mut h), Step::Show(Action::Bell));
    assert_eq!(e.line(), "one");
    assert_eq!(e.process_input(Key::Down, &mut h), Step::Show(Action::Redraw));
    assert_eq!(e.line(), "two!");
    assert_eq!(e.process_input(Key::Down, &mut h), Step::Show(Action::Redraw));
    assert_eq!(e.line(), "dra");
    assert_eq!(e.cursor(), 3);
    assert_eq!(e.process_input(Key::Down, &mut h), Step::Show(Action::Bell));
}

#[test]
fn up_in_an_empty_history_rings() {
    let mut h = History::open(Vec::new());
    let mut e = Editor::new(4);
    assert_eq!(e.get_previous_command(&mut h), Action::Bell);
    assert_eq!(e.get_next_command(&mut h), Action::Bell);
}

#[test]
fn tab_asks_for_commands_or_files() {
    let mut h = History::open(Vec::new());
    let mut e = typed("ec", &mut h);
    assert_eq!(
        e.process_input(Key::Char('\t'), &mut h),
        Step::Complete(Query::Commands { prefix: "ec".to_string() })
    );
    let mut f = typed("cat fo", &mut h);
    assert_eq!(
        f.process_input(Key::Char('\t'), &mut h),
        Step::Complete(Query::Files { dir: ".".to_string(), stem: "fo".to_string() })
    );
    let g = typed("ls /usr/li", &mut h);
    assert_eq!(
        g.get_completions(),
        Query::Files { dir: "/usr/".to_string(), stem: "li".to_string() }
    );
    let i = typed("./ru", &mut h);
    assert_eq!(
        i.get_completions(),
        Query::Files { dir: "./".to_string(), stem: "ru".to_string() }
    );
    assert_eq!(typed("..", &mut h).get_completions(), Query::Known(strings(&["../"])));
    assert_eq!(typed("cd .", &mut h).get_completions(), Query::Known(strings(&["./"])));
    assert_eq!(typed("", &mut h).get_completions(), Query::Commands { prefix: String::new() });
}

#[test]
fn single_match_goes_in_with_a_space() {
    let mut h = History::open(Vec::new());
    let mut e = typed("ec", &mut h);
    assert_eq!(e.handle_tab(strings(&["echo"])), Action::Redraw);
    assert_eq!(e.line(), "echo ");
    assert_eq!(e.cursor(), 5);
}

#[test]
fn completion_replaces_after_the_last_slash() {
    let mut h = History::open(Vec::new());
    let mut e = typed("ls /usr/li tail", &mut h);
    for _ in 0..5 {
        e.process_input(Key::Left, &mut h);
    }
    assert_eq!(e.handle_tab(strings(&["lib/"])), Action::Redraw);
    assert_eq!(e.line(), "ls /usr/lib/  tail");
    assert_eq!(e.cursor(), 13);
    let mut f = typed("a b", &mut h);
    f.update_input(&"xyz".chars().collect());
    assert_eq!(f.line(), "a xyz");
    assert_eq!(f.cursor(), 5);
}

#[test]
fn several_matches_extend_then_ring_then_list() {
    let mut h = History::open(Vec::new());
    let mut e = typed("cat fo", &mut h);
    let matches = strings(&["foo_a", "foo_b"]);
    assert_eq!(e.handle_tab(matches.clone()), Action::Redraw);
    assert_eq!(e.line(), "cat foo_");
    assert_eq!(e.handle_tab(matches.clone()), Action::Bell);
    assert_eq!(e.line(), "cat foo_");
    assert_eq!(e.get_completions(), Query::Known(matches.clone()));
    assert_eq!(e.handle_tab(matches.clone()), Action::List);
    assert_eq!(e.line(), "cat foo_");
    e.process_input(Key::Char('a'), &mut h);
    assert_eq!(
        e.get_completions(),
        Query::Files { dir: ".".to_string(), stem: "foo_a".to_string() }
    );
}

#[test]
fn no_match_rings() {
    let mut h = History::open(Vec::new());
    let mut e = typed("zz", &mut h);
    assert_eq!(e.handle_tab(Vec::new()), Action::Bell);
    assert_eq!(e.line(), "zz");
}

#[test]
fn common_prefix_of_first_and_last() {
    assert_eq!(longest_common_prefix(&strings(&[])), "");
    assert_eq!(longest_common_prefix(&strings(&["echo"])), "echo");
    assert_eq!(longest_common_prefix(&strings(&["foo_a", "foo_b", "fox"])), "fo");
    assert_eq!(longest_common_prefix(&strings(&["ab", "abc"])), "ab");
    assert_eq!(longest_common_prefix(&strings(&["x", "y"])), "");
}

#[test]
fn completion_holds_prefix_and_matches() {
    let c = Completion::new("fo".to_string(), strings(&["foo", "fox"]));
    assert_eq!(c.prefix, "fo");
    assert_eq!(c.matches, strings(&["foo", "fox"]));
}
