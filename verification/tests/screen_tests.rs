use shlib::history::History;
use shlib::screen::render;
use shlib::state::{Action, Editor, Key, Step};

fn strings(items: &[&str]) -> Vec<String> {
    items.iter().map(|s| s.to_string()).collect()
}

fn typed(text: &str, history: &mut History) -> Editor {
    let mut e = Editor::new(history.len());
    for c in text.chars() {
        e.process_input(Key::Char(c), history);
    }
    e
}

#[test]
fn bell_and_nothing() {
    let e = Editor::new(0);
    assert_eq!(render(&e, Action::Nothing, &Vec::new()), "");
    assert_eq!(render(&e, Action::Bell, &Vec::new()), "\x07");
}

#[test]
fn cursor_moves_are_escape_sequences() {
    let e = Editor::new(0);
    assert_eq!(render(&e, Action::Left, &Vec::new()), "\x1b[1D");
    assert_eq!(render(&e, Action::Right, &Vec::new()), "\x1b[1C");
    assert_eq!(render(&e, Action::Erase, &Vec::new()), "\x1b[1D \x1b[1D");
}

#[test]
fn insertion_writes_the_tail_and_moves_back() {
    let mut h = History::open(Vec::new());
    let mut e = typed("hello wrld", &mut h);
    for _ in 0..3 {
        e.process_input(Key::Left, &mut h);
    }
    let step = e.process_input(Key::Char('o'), &mut h);
    assert_eq!(step, Step::Show(Action::Insert { back: 3 }));
    assert_eq!(render(&e, Action::Insert { back: 3 }, &Vec::new()), "orld\x1b[3D");
    let step = e.process_input(Key::Right, &mut h);
    assert_eq!(step, Step::Show(Action::Right));
    let mut f = typed("ab", &mut h);
    let step = f.process_input(Key::Char('c'), &mut h);
    assert_eq!(step, Step::Show(Action::Insert { back: 0 }));
    assert_eq!(render(&f, Action::Insert { back: 0 }, &Vec::new()), "c");
    let g = typed("0123456789ab", &mut h);
    assert_eq!(render(&g, Action::Insert { back: 12 }, &Vec::new()), "b\x1b[12D");
}

#[test]
fn redraw_clears_the_line() {
    let mut h = History::open(Vec::new());
    let e = typed("ls -l", &mut h);
    assert_eq!(render(&e, Action::Redraw, &Vec::new()), "\r\x1b[2K$ ls -l");
}

#[test]
fn list_shows_the_matches_on_their_own_line() {
    let mut h = History::open(Vec::new());
    let e = typed("e", &mut h);
    assert_eq!(
        render(&e, Action::List, &strings(&["echo", "env", "exit"])),
        "\r\necho  env  exit\n\r\x1b[2K$ e"
    );
    assert_eq!(render(&e, Action::List, &strings(&["echo"])), "\r\necho\n\r\x1b[2K$ e");
}
