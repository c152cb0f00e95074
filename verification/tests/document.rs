use vedit::document::Document;

fn lines(d: &Document) -> Vec<String> {
    d.lines().iter().map(|s| s.to_string()).collect()
}

#[test]
fn empty_document() {
    let d = Document::empty();
    assert!(d.is_empty());
    assert!(!d.is_dirty());
    assert_eq!(d.rows_len(), 0);
    assert_eq!(d.filename(), None);
    assert_eq!(d.row(0), None);
    assert_eq!(d.line_len(0), 0);
    assert_eq!(d.char_at(0, 0), None);
    assert_eq!(d.save_text(), None);
}

#[test]
fn accessors() {
    let d = Document::from_lines(&["abc", "é"]);
    assert_eq!(d.rows_len(), 2);
    assert_eq!(d.row(1), Some("é"));
    assert_eq!(d.row(2), None);
    assert_eq!(d.line_len(0), 3);
    assert_eq!(d.line_len(1), 2); // bytes
    assert_eq!(d.char_at(2, 0), Some('c'));
    assert_eq!(d.char_at(0, 1), Some('é'));
    assert_eq!(d.char_at(1, 1), None);
    assert_eq!(lines(&d), vec!["abc", "é"]);
}

#[test]
fn insert_char_into_empty_document() {
    let mut d = Document::empty();
    d.insert_char(0, 0, 'x');
    assert_eq!(lines(&d), vec!["x"]);
    assert!(d.is_dirty());
}

#[test]
fn insert_char_at_byte_offsets() {
    let mut d = Document::from_lines(&["aé", "z"]);
    d.insert_char(3, 0, '!'); // after the 2-byte é
    assert_eq!(lines(&d), vec!["aé!", "z"]);
    d.insert_char(1, 0, '-');
    assert_eq!(lines(&d), vec!["a-é!", "z"]);
    d.insert_char(0, 5, 'q'); // missing line: nothing
    assert_eq!(lines(&d), vec!["a-é!", "z"]);
}

#[test]
fn delete_char_cases() {
    let mut d = Document::from_lines(&["abc"]);
    d.delete_char(1, 0);
    assert_eq!(lines(&d), vec!["ac"]);
    assert!(d.is_dirty());
    let mut e = Document::from_lines(&["abc"]);
    e.delete_char(0, 3); // missing line
    assert_eq!(lines(&e), vec!["abc"]);
    assert!(e.is_dirty());
}

#[test]
fn join_line_cases() {
    let mut d = Document::from_lines(&["ab", "cd", "ef"]);
    d.join_line(0);
    assert_eq!(lines(&d), vec!["ab", "cd", "ef"]);
    assert!(!d.is_dirty());
    d.join_line(3);
    assert!(!d.is_dirty());
    d.join_line(2);
    assert_eq!(lines(&d), vec!["ab", "cdef"]);
    assert!(d.is_dirty());
}

#[test]
fn insert_newline_cases() {
    let mut d = Document::from_lines(&["hello"]);
    d.insert_newline(2, 0);
    assert_eq!(lines(&d), vec!["he", "llo"]);
    assert!(d.is_dirty());
    let mut e = Document::from_lines(&["a"]);
    e.insert_newline(0, 7); // missing line: an empty line is appended, dirty
    assert_eq!(lines(&e), vec!["a", ""]);
    assert!(e.is_dirty());
    let mut f = Document::from_lines(&["ab"]);
    f.insert_newline(2, 0);
    assert_eq!(lines(&f), vec!["ab", ""]);
}

#[test]
fn remove_line_cases() {
    let mut d = Document::from_lines(&["a", "b", "c"]);
    d.remove_line(1);
    assert_eq!(lines(&d), vec!["a", "c"]);
    d.remove_line(9);
    assert_eq!(lines(&d), vec!["a", "c"]);
    assert!(d.is_dirty());
}

#[test]
fn truncate_cases() {
    let mut d = Document::from_lines(&["hello", "x"]);
    d.truncate(2, 0);
    assert_eq!(lines(&d), vec!["he", "x"]);
    d.truncate(10, 1); // past the end: no change
    assert_eq!(lines(&d), vec!["he", "x"]);
    d.truncate(0, 1);
    assert_eq!(lines(&d), vec!["he", ""]);
    assert!(d.is_dirty());
}

#[test]
fn delete_range_single_line() {
    let mut d = Document::from_lines(&["hello world"]);
    assert_eq!(d.delete_range((6, 0), (2, 0)), (2, 0));
    assert_eq!(lines(&d), vec!["heworld"]);
    assert!(d.is_dirty());
}

#[test]
fn delete_range_multi_line() {
    let mut d = Document::from_lines(&["abc", "def", "ghi", "jkl"]);
    assert_eq!(d.delete_range((1, 0), (2, 2)), (1, 0));
    assert_eq!(lines(&d), vec!["ai", "jkl"]);
}

#[test]
fn delete_range_clamps_columns_and_ignores_missing_end() {
    let mut d = Document::from_lines(&["abc", "def"]);
    assert_eq!(d.delete_range((9, 0), (1, 1)), (9, 0));
    assert_eq!(lines(&d), vec!["abcef"]);
    let mut e = Document::from_lines(&["abc"]);
    assert_eq!(e.delete_range((0, 0), (0, 5)), (0, 0));
    assert_eq!(lines(&e), vec!["abc"]);
    assert!(e.is_dirty());
}

#[test]
fn delete_empty_range_keeps_text() {
    let mut d = Document::from_lines(&["abc"]);
    d.delete_range((1, 0), (1, 0));
    assert_eq!(lines(&d), vec!["abc"]);
}

#[test]
fn delete_range_order_does_not_matter() {
    let mut a = Document::from_lines(&["abc", "def"]);
    let mut b = Document::from_lines(&["abc", "def"]);
    assert_eq!(a.delete_range((1, 0), (2, 1)), b.delete_range((2, 1), (1, 0)));
    assert_eq!(lines(&a), lines(&b));
}

#[test]
fn insert_then_delete_char_restores_line() {
    let mut d = Document::from_lines(&["aéb"]);
    d.insert_char(3, 0, 'ß');
    d.delete_char(3, 0);
    assert_eq!(lines(&d), vec!["aéb"]);
}

#[test]
fn split_then_join_restores_lines() {
    let mut d = Document::from_lines(&["first", "second"]);
    d.insert_newline(3, 1);
    d.join_line(2);
    assert_eq!(lines(&d), vec!["first", "second"]);
}

#[test]
fn from_text_splits_lines() {
    let d = Document::from_text("f.txt", "a\r\nb\n\nc\n");
    assert_eq!(lines(&d), vec!["a", "b", "", "c"]);
    assert_eq!(d.filename(), Some("f.txt"));
    assert!(!d.is_dirty());
    let e = Document::from_text("e", "");
    assert!(e.is_empty());
    let f = Document::from_text("f", "x\r");
    assert_eq!(lines(&f), vec!["x\r"]);
    let g = Document::from_text("g", "\n");
    assert_eq!(lines(&g), vec![""]);
}

#[test]
fn save_text_joins_lines() {
    let mut d = Document::from_text("f.txt", "one\ntwo\n");
    assert_eq!(d.save_text().as_deref(), Some("one\ntwo"));
    d.insert_char(0, 0, '>');
    assert!(d.is_dirty());
    d.mark_saved();
    assert!(!d.is_dirty());
    let mut e = Document::from_lines(&["x"]);
    e.insert_char(0, 0, 'y');
    e.mark_saved(); // no file: stays dirty
    assert!(e.is_dirty());
}

#[test]
fn save_then_open_round_trip() {
    let d = Document::from_lines(&["alpha", "", "gamma"]);
    let text = Document::from_text("n", "alpha\n\ngamma").save_text().unwrap();
    let back = Document::from_text("n", &text);
    assert_eq!(lines(&back), lines(&d));
}
