use vedit::document::Document;

#[test]
fn next_word_small_and_big() {
    let d = Document::from_lines(&["foo.bar baz", "next"]);
    assert_eq!(d.next_word(0, 0, false), (3, 0));
    assert_eq!(d.next_word(3, 0, false), (4, 0));
    assert_eq!(d.next_word(0, 0, true), (8, 0));
    assert_eq!(d.next_word(8, 0, false), (0, 1));
    assert_eq!(d.next_word(2, 1, false), (3, 1)); // last line: last column
    assert_eq!(d.next_word(1, 7, false), (1, 7)); // missing line
}

#[test]
fn next_word_from_blank_and_past_end() {
    let d = Document::from_lines(&["a   b"]);
    assert_eq!(d.next_word(1, 0, false), (4, 0));
    assert_eq!(d.next_word(9, 0, false), (4, 0));
    let e = Document::from_lines(&["", "x"]);
    assert_eq!(e.next_word(0, 0, false), (0, 1));
    let f = Document::from_lines(&[""]);
    assert_eq!(f.next_word(0, 0, false), (0, 0));
}

#[test]
fn next_word_end_cases() {
    let d = Document::from_lines(&["foo.bar baz", "  qux"]);
    assert_eq!(d.next_word_end(0, 0, false), (2, 0));
    assert_eq!(d.next_word_end(2, 0, false), (3, 0));
    assert_eq!(d.next_word_end(2, 0, true), (6, 0));
    assert_eq!(d.next_word_end(8, 0, false), (10, 0));
    assert_eq!(d.next_word_end(10, 0, false), (4, 1));
    assert_eq!(d.next_word_end(4, 1, false), (4, 1)); // nothing after: last column
    assert_eq!(d.next_word_end(3, 5, false), (3, 5));
}

#[test]
fn previous_word_cases() {
    let d = Document::from_lines(&["foo bar", "baz.qux"]);
    assert_eq!(d.previous_word(6, 0, false), (4, 0));
    assert_eq!(d.previous_word(4, 0, false), (0, 0));
    assert_eq!(d.previous_word(0, 1, false), (4, 0));
    assert_eq!(d.previous_word(5, 1, false), (4, 1));
    assert_eq!(d.previous_word(4, 1, false), (3, 1));
    assert_eq!(d.previous_word(5, 1, true), (0, 1));
    assert_eq!(d.previous_word(0, 0, false), (0, 0));
    assert_eq!(d.previous_word(3, 9, false), (3, 9)); // missing line
    assert_eq!(d.previous_word(0, 9, false), (4, 1)); // from past the end
}

#[test]
fn previous_word_over_blank_lines() {
    let d = Document::from_lines(&["  ", "", "   x"]);
    assert_eq!(d.previous_word(3, 2, false), (0, 0));
    assert!(d.previous_word_in_bounds(3, 2, false));
}

#[test]
fn previous_word_bounds_check() {
    // the line above is measured in bytes: 4 bytes for 3 chars is out of bounds
    let d = Document::from_lines(&["aéb", "x"]);
    assert!(!d.previous_word_in_bounds(0, 1, false));
    assert!(d.previous_word_in_bounds(1, 1, false));
    assert!(!d.previous_word_in_bounds(5, 0, false));
    assert!(d.previous_word_in_bounds(3, 0, false));
}
