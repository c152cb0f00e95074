use vedit::document::Document;
use vedit::document::search::{find_in_row, rfind_in_row};

#[test]
fn find_forward_and_wrap() {
    let d = Document::from_lines(&["foo bar", "baz bar"]);
    assert_eq!(d.find("bar", (0, 0)), Some((4, 0)));
    assert_eq!(d.find("bar", (4, 0)), Some((4, 1))); // next one, on line 1
    assert_eq!(d.find("bar", (4, 1)), Some((4, 0))); // wraps back to line 0
    assert_eq!(d.find("nope", (0, 0)), None);
}

#[test]
fn rfind_backward_and_wrap() {
    let d = Document::from_lines(&["foo bar", "baz bar"]);
    assert_eq!(d.rfind("bar", (4, 1)), Some((4, 0)));
    assert_eq!(d.rfind("bar", (4, 0)), Some((4, 1))); // wraps to line 1
}

#[test]
fn word_under_cursor() {
    let d = Document::from_lines(&["foo bar_baz qux"]);
    assert_eq!(d.word_at(5, 0).as_deref(), Some("bar_baz"));
    assert_eq!(d.word_at(3, 0), None); // on the space
}

#[test]
fn find_on_single_row_wraps_to_earlier_match() {
    let d = Document::from_lines(&["ab ab"]);
    assert_eq!(d.find("ab", (3, 0)), Some((0, 0)));
    assert_eq!(d.find("ab", (0, 0)), Some((3, 0)));
}

#[test]
fn find_empty_pattern_or_document() {
    let d = Document::from_lines(&["abc"]);
    assert_eq!(d.find("", (0, 0)), None);
    assert_eq!(d.rfind("", (0, 0)), None);
    let e = Document::empty();
    assert_eq!(e.find("a", (0, 0)), None);
    assert_eq!(e.rfind("a", (0, 0)), None);
}

#[test]
fn find_from_past_the_last_row_wraps() {
    let d = Document::from_lines(&["x", "y", "z"]);
    // row 4 wraps to row 1
    assert_eq!(d.find("z", (0, 4)), Some((0, 2)));
    assert_eq!(d.find("y", (0, 4)), Some((0, 1)));
}

#[test]
fn rfind_before_cursor_on_same_row() {
    let d = Document::from_lines(&["aXbXc"]);
    assert_eq!(d.rfind("X", (3, 0)), Some((1, 0)));
    assert_eq!(d.rfind("X", (4, 0)), Some((3, 0)));
    // nothing before column 1: wraps round to the whole row
    assert_eq!(d.rfind("X", (1, 0)), Some((3, 0)));
}

#[test]
fn rfind_finds_every_occurrence_somewhere() {
    let d = Document::from_lines(&["one", "two", "three"]);
    assert_eq!(d.rfind("one", (0, 0)), Some((0, 0)));
    assert_eq!(d.find("one", (0, 0)), Some((0, 0)));
    assert_eq!(d.rfind("three", (0, 1)), Some((0, 2)));
}

#[test]
fn rows_search_multibyte_chars_by_column() {
    let d = Document::from_lines(&["héllo wörld"]);
    assert_eq!(d.find("wö", (0, 0)), Some((6, 0)));
    assert_eq!(d.word_at(7, 0).as_deref(), Some("wörld"));
}

#[test]
fn find_in_row_cases() {
    let chars: Vec<char> = "abcabc".chars().collect();
    let pat: Vec<char> = "bc".chars().collect();
    assert_eq!(find_in_row(&chars, &pat, 0), Some(1));
    assert_eq!(find_in_row(&chars, &pat, 2), Some(4));
    assert_eq!(find_in_row(&chars, &pat, 5), None);
    assert_eq!(find_in_row(&chars, &[], 0), None);
    let long: Vec<char> = "abcabcabc".chars().collect();
    assert_eq!(find_in_row(&chars, &long, 0), None);
}

#[test]
fn rfind_in_row_cases() {
    let chars: Vec<char> = "abcabc".chars().collect();
    let pat: Vec<char> = "bc".chars().collect();
    assert_eq!(rfind_in_row(&chars, &pat, 6), Some(4));
    assert_eq!(rfind_in_row(&chars, &pat, 4), Some(1));
    assert_eq!(rfind_in_row(&chars, &pat, 1), None);
    assert_eq!(rfind_in_row(&chars, &pat, 0), None);
    assert_eq!(rfind_in_row(&chars, &[], 3), None);
}

#[test]
fn word_at_edges() {
    let d = Document::from_lines(&["ab", ""]);
    assert_eq!(d.word_at(0, 0).as_deref(), Some("ab"));
    assert_eq!(d.word_at(1, 0).as_deref(), Some("ab"));
    assert_eq!(d.word_at(2, 0), None);
    assert_eq!(d.word_at(0, 1), None);
    assert_eq!(d.word_at(0, 5), None);
    let p = Document::from_lines(&["(x1)"]);
    assert_eq!(p.word_at(0, 0), None);
    assert_eq!(p.word_at(2, 0).as_deref(), Some("x1"));
}
