use shlib::history::History;

fn strings(items: &[&str]) -> Vec<String> {
    items.iter().map(|s| s.to_string()).collect()
}

#[test]
fn add_skips_empty_and_repeated_lines() {
    let mut h = History::open(Vec::new());
    h.add("ls".to_string());
    h.add(String::new());
    h.add("ls".to_string());
    h.add("pwd".to_string());
    h.add("ls".to_string());
    assert_eq!(h.len(), 3);
    assert_eq!(h.lines_to_write(), strings(&["ls", "pwd", "ls"]));
}

#[test]
fn get_and_set() {
    let mut h = History::open(strings(&["a", "b"]));
    assert_eq!(h.get(0), Some("a".to_string()));
    assert_eq!(h.get(1), Some("b".to_string()));
    assert_eq!(h.get(2), None);
    assert_eq!(h.entry(1), "b");
    h.set(1, "c".to_string());
    h.set(5, "d".to_string());
    assert_eq!(h.lines_to_write(), strings(&["a", "c"]));
}

#[test]
fn loaded_lines_count_as_written() {
    let mut h = History::open(strings(&["a", "b"]));
    assert!(h.lines_to_append().is_empty());
    h.add("c".to_string());
    assert_eq!(h.lines_to_append(), strings(&["c"]));
    assert_eq!(h.lines_to_write(), strings(&["a", "b", "c"]));
}

#[test]
fn second_append_writes_nothing() {
    let mut h = History::open(Vec::new());
    h.add("a".to_string());
    h.add("b".to_string());
    let mut file: Vec<String> = Vec::new();
    file.extend(h.lines_to_append());
    h.mark_flushed();
    file.extend(h.lines_to_append());
    h.mark_flushed();
    assert_eq!(file, strings(&["a", "b"]));
}

#[test]
fn append_after_rewrite_adds_no_duplicate() {
    let mut h = History::open(Vec::new());
    h.add("a".to_string());
    h.add("b".to_string());
    let mut file = h.lines_to_write();
    h.mark_flushed();
    file.extend(h.lines_to_append());
    h.mark_flushed();
    assert_eq!(file, strings(&["a", "b"]));
    h.add("c".to_string());
    file.extend(h.lines_to_append());
    assert_eq!(file, strings(&["a", "b", "c"]));
}

#[test]
fn clear_keeps_the_boundary() {
    let mut h = History::open(strings(&["a", "b"]));
    h.clear();
    assert_eq!(h.len(), 0);
    h.add("c".to_string());
    assert!(h.lines_to_append().is_empty());
    h.add("d".to_string());
    h.add("e".to_string());
    assert_eq!(h.lines_to_append(), strings(&["e"]));
}

#[test]
fn lines_read_from_a_file_are_added() {
    let mut h = History::open(strings(&["a"]));
    h.append_lines(strings(&["x", "y"]));
    assert_eq!(h.lines_to_write(), strings(&["a", "x", "y"]));
    assert_eq!(h.lines_to_append(), strings(&["x", "y"]));
}

#[test]
fn print_numbers_the_entries() {
    let h = History::open(strings(&["ls", "pwd", "echo hi"]));
    let mut out = String::new();
    h.print(&mut out, None);
    assert_eq!(out, "    1 ls\n    2 pwd\n    3 echo hi\n");
    let mut last = String::from("x");
    h.print(&mut last, Some(2));
    assert_eq!(last, "x    2 pwd\n    3 echo hi\n");
    let mut all = String::new();
    h.print(&mut all, Some(10));
    assert_eq!(all, out);
    let mut none = String::new();
    h.print(&mut none, Some(0));
    assert_eq!(none, "");
}

#[test]
fn print_keeps_wide_numbers_whole() {
    let mut lines: Vec<String> = Vec::new();
    for i in 0..100000 {
        lines.push(format!("c{}", i));
    }
    let h = History::open(lines);
    let mut out = String::new();
    h.print(&mut out, Some(2));
    assert_eq!(out, "99999 c99998\n100000 c99999\n");
}
