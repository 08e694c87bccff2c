use shlib::candidates::{
    add_matching, find_matching_executables, find_matching_files, insert_sorted, rank, sorted_names,
    starts_with, DirEntry, Rank,
};
use shlib::executables::{find_executable_in_path, get_all_executables, search_dir};
use shlib::history::History;
use shlib::rline::{Candidate, ShellHelper};
use shlib::state::{Action, Editor, Key, Query, Step};

fn strings(items: &[&str]) -> Vec<String> {
    items.iter().map(|s| s.to_string()).collect()
}

fn chars(s: &str) -> Vec<char> {
    s.chars().collect()
}

fn entry(name: &str, is_dir: bool) -> DirEntry {
    DirEntry { name: name.to_string(), is_dir }
}

#[test]
fn prefix_ec_completes_to_echo() {
    let found = find_matching_executables(&Vec::new(), "ec");
    assert_eq!(found, strings(&["echo"]));
    let mut h = History::open(Vec::new());
    let mut e = Editor::new(0);
    e.process_input(Key::Char('e'), &mut h);
    e.process_input(Key::Char('c'), &mut h);
    let step = e.process_input(Key::Char('\t'), &mut h);
    assert_eq!(step, Step::Complete(Query::Commands { prefix: "ec".to_string() }));
    assert_eq!(e.handle_tab(found), Action::Redraw);
    assert_eq!(e.line(), "echo ");
    assert_eq!(e.cursor(), 5);
}

#[test]
fn commands_are_sorted_and_unique() {
    let names = strings(&["pwdx", "ls", "echo", "exa", "ps", "pwdx", "env"]);
    assert_eq!(
        find_matching_executables(&names, "e"),
        strings(&["echo", "env", "exa", "exit"])
    );
    assert_eq!(find_matching_executables(&names, "p"), strings(&["ps", "pwd", "pwdx"]));
    assert_eq!(
        find_matching_executables(&names, ""),
        strings(&["cd", "echo", "env", "exa", "exit", "history", "ls", "ps", "pwd", "pwdx", "type"])
    );
    assert!(find_matching_executables(&names, "zz").is_empty());
}

#[test]
fn files_get_a_slash_after_directories() {
    let entries = vec![
        entry("src", true),
        entry("sample.md", false),
        entry("README", false),
        entry("s", false),
        entry("target", true),
    ];
    assert_eq!(find_matching_files(&entries, "s"), strings(&["s", "sample.md", "src/"]));
    assert_eq!(find_matching_files(&entries, "sr"), strings(&["src/"]));
    assert_eq!(
        find_matching_files(&entries, ""),
        strings(&["README", "s", "sample.md", "src/", "target/"])
    );
    assert!(find_matching_files(&entries, "x").is_empty());
}

#[test]
fn texts_are_ranked_by_their_characters() {
    assert_eq!(rank(&chars("a"), &chars("b")), Rank::Before);
    assert_eq!(rank(&chars("b"), &chars("a")), Rank::After);
    assert_eq!(rank(&chars("ab"), &chars("ab")), Rank::Same);
    assert_eq!(rank(&chars("ab"), &chars("abc")), Rank::Before);
    assert_eq!(rank(&chars("abc"), &chars("ab")), Rank::After);
    assert_eq!(rank(&chars(""), &chars("")), Rank::Same);
    assert_eq!(rank(&chars("Z"), &chars("a")), Rank::Before);
    assert_eq!(rank(&chars("é"), &chars("z")), Rank::After);
    let mut names = strings(&["é", "z", "Z", "a", "ab", "", "\u{10000}", "\u{ffff}"]);
    let sorted = sorted_names(&names);
    names.sort();
    assert_eq!(sorted, names);
}

#[test]
fn prefixes() {
    assert!(starts_with(&chars("echo"), &chars("ec")));
    assert!(starts_with(&chars("echo"), &chars("")));
    assert!(starts_with(&chars("echo"), &chars("echo")));
    assert!(!starts_with(&chars("echo"), &chars("echoo")));
    assert!(!starts_with(&chars("echo"), &chars("ex")));
}

#[test]
fn insertion_keeps_the_order() {
    let mut list = strings(&["b", "d"]);
    insert_sorted(&mut list, "c".to_string());
    insert_sorted(&mut list, "a".to_string());
    insert_sorted(&mut list, "e".to_string());
    insert_sorted(&mut list, "c".to_string());
    assert_eq!(list, strings(&["a", "b", "c", "d", "e"]));
    add_matching(&mut list, &strings(&["ca", "x", "cb", "a"]), &chars("c"));
    assert_eq!(list, strings(&["a", "b", "c", "ca", "cb", "d", "e"]));
}

#[test]
fn search_list() {
    assert_eq!(search_dir(""), ".");
    assert_eq!(search_dir("/usr/bin"), "/usr/bin");
    assert_eq!(find_executable_in_path(&vec![false, true, true]), Some(1));
    assert_eq!(find_executable_in_path(&vec![false, false]), None);
    assert_eq!(find_executable_in_path(&Vec::new()), None);
    assert_eq!(
        get_all_executables(&strings(&["ls", "cat", "ls", "awk"])),
        strings(&["awk", "cat", "ls"])
    );
}

#[test]
fn helper_completes_the_last_word() {
    let helper = ShellHelper {
        builtins: vec!["cd", "echo", "exit", "history", "pwd", "type"],
        system_commands: strings(&["env", "ls", "echo", "étoile"]),
    };
    let (start, found) = helper.complete("e", 1);
    assert_eq!(start, 0);
    let shown: Vec<String> = found.iter().map(|c| c.display.clone()).collect();
    assert_eq!(shown, strings(&["echo", "exit", "env", "echo"]));
    assert_eq!(
        found[0],
        Candidate { display: "echo".to_string(), replacement: "echo ".to_string() }
    );
    let (start, found) = helper.complete("sudo ét and more", 8);
    assert_eq!(start, 5);
    assert_eq!(
        found,
        vec![Candidate { display: "étoile".to_string(), replacement: "étoile ".to_string() }]
    );
    let (start, found) = helper.complete("ls ", 3);
    assert_eq!(start, 3);
    assert_eq!(found.len(), 10);
    let (start, found) = helper.complete("zz", 2);
    assert_eq!(start, 0);
    assert!(found.is_empty());
}
