use vedit::document::Document;
use vedit::editor::action::Action;
use vedit::editor::keymap::{KeyBind, KeyCode, KeyEvent, KeyModifiers, Keymap};
use vedit::editor::{Editor, Mode, Operator, Register};

fn mods(control: bool, shift: bool) -> KeyModifiers {
    KeyModifiers { shift, control, alt: false, super_key: false, hyper: false, meta: false }
}

fn key(c: char) -> KeyEvent {
    KeyEvent { code: KeyCode::Char(c), modifiers: mods(false, false) }
}

fn ctrl(c: char) -> KeyEvent {
    KeyEvent { code: KeyCode::Char(c), modifiers: mods(true, false) }
}

fn special(code: KeyCode) -> KeyEvent {
    KeyEvent { code, modifiers: mods(false, false) }
}

fn press(e: &mut Editor, k: KeyEvent) {
    assert!(e.can_handle(k));
    e.dispatcher(k);
}

fn typed(e: &mut Editor, s: &str) {
    for c in s.chars() {
        press(e, key(c));
    }
}

fn sized(document: Document, cols: u16, rows: u16) -> Editor {
    let mut e = Editor::new(document);
    e.set_screen_size(cols, rows);
    e
}

fn editor(lines: &[&str]) -> Editor {
    sized(Document::from_lines(lines), 80, 24)
}

fn text(e: &Editor) -> Vec<String> {
    e.document().lines().iter().map(|s| s.to_string()).collect()
}

#[test]
fn new_editor_state() {
    let e = editor(&["a"]);
    assert_eq!(e.mode(), Mode::Normal);
    assert_eq!(e.position(), (0, 0));
    assert_eq!(e.offset(), (0, 0));
    assert!(!e.should_quit());
    assert_eq!(e.command_text(), "");
}

#[test]
fn keymap_lookup() {
    let k = Keymap::default_vim();
    assert!(matches!(k.lookup_normal(&KeyBind::from_event(key('h'))), Some(Action::MoveLeft)));
    assert!(matches!(k.lookup_normal(&KeyBind::from_event(key('W'))), Some(Action::WordForward(true))));
    assert!(matches!(k.lookup_normal(&KeyBind::from_event(ctrl('u'))), Some(Action::HalfPageUp)));
    assert!(matches!(
        k.lookup_normal(&KeyBind::from_event(key('d'))),
        Some(Action::StartOperator(Operator::Delete))
    ));
    assert!(k.lookup_normal(&KeyBind::from_event(key('z'))).is_none());
    assert!(k.lookup_normal(&KeyBind::from_event(special(KeyCode::Esc))).is_none());
}

#[test]
fn shift_is_dropped_from_binds() {
    let shifted = KeyEvent { code: KeyCode::Char('G'), modifiers: mods(false, true) };
    assert_eq!(KeyBind::from_event(shifted), KeyBind::from_event(key('G')));
    let k = Keymap::default_vim();
    assert!(matches!(k.lookup_normal(&KeyBind::from_event(shifted)), Some(Action::GotoBottom)));
}

#[test]
fn hjkl_moves_and_clamps() {
    let mut e = editor(&["abcd", "xy", "longer line"]);
    typed(&mut e, "lll");
    assert_eq!(e.position(), (3, 0));
    typed(&mut e, "l"); // cannot pass the last char
    assert_eq!(e.position(), (3, 0));
    typed(&mut e, "j"); // clamped to line 1's last column
    assert_eq!(e.position(), (1, 1));
    typed(&mut e, "jj");
    assert_eq!(e.position(), (1, 2));
    typed(&mut e, "kh");
    assert_eq!(e.position(), (0, 1));
    typed(&mut e, "hkk");
    assert_eq!(e.position(), (0, 0));
}

#[test]
fn gg_and_big_g() {
    let mut e = editor(&["one", "two", "three"]);
    typed(&mut e, "G");
    assert_eq!(e.position(), (0, 2));
    typed(&mut e, "gg");
    assert_eq!(e.position(), (0, 0));
    typed(&mut e, "jgx"); // g then x: nothing happens
    assert_eq!(e.position(), (0, 1));
    assert_eq!(text(&e), vec!["one", "two", "three"]);
}

#[test]
fn half_page_moves_use_screen_height() {
    let lines: Vec<String> = (0..30).map(|i| format!("line {i}")).collect();
    let refs: Vec<&str> = lines.iter().map(|s| s.as_str()).collect();
    let mut e = sized(Document::from_lines(&refs), 80, 10);
    press(&mut e, ctrl('d'));
    assert_eq!(e.position(), (0, 5));
    press(&mut e, ctrl('d'));
    press(&mut e, ctrl('d'));
    press(&mut e, ctrl('d'));
    press(&mut e, ctrl('d'));
    press(&mut e, ctrl('d'));
    assert_eq!(e.position(), (0, 29));
    press(&mut e, ctrl('u'));
    assert_eq!(e.position(), (0, 24));
}

#[test]
fn word_motions_through_keys() {
    let mut e = editor(&["foo bar", "baz"]);
    typed(&mut e, "w");
    assert_eq!(e.position(), (4, 0));
    typed(&mut e, "e");
    assert_eq!(e.position(), (6, 0));
    typed(&mut e, "w");
    assert_eq!(e.position(), (0, 1));
    typed(&mut e, "b");
    assert_eq!(e.position(), (4, 0));
}

#[test]
fn insert_mode_typing() {
    let mut e = editor(&["ac"]);
    typed(&mut e, "li");
    assert_eq!(e.mode(), Mode::Insert);
    typed(&mut e, "b");
    assert_eq!(text(&e), vec!["abc"]);
    assert_eq!(e.position(), (2, 0));
    press(&mut e, special(KeyCode::Enter));
    assert_eq!(text(&e), vec!["ab", "c"]);
    assert_eq!(e.position(), (0, 1));
    press(&mut e, special(KeyCode::Backspace));
    assert_eq!(text(&e), vec!["abc"]);
    assert_eq!(e.position(), (2, 0));
    press(&mut e, special(KeyCode::Backspace));
    assert_eq!(text(&e), vec!["ac"]);
    press(&mut e, special(KeyCode::Esc));
    assert_eq!(e.mode(), Mode::Normal);
    assert!(e.document().is_dirty());
}

#[test]
fn typing_into_an_empty_document() {
    let mut e = sized(Document::empty(), 80, 24);
    typed(&mut e, "ihi");
    assert_eq!(text(&e), vec!["hi"]);
    press(&mut e, special(KeyCode::Backspace));
    press(&mut e, special(KeyCode::Backspace));
    press(&mut e, special(KeyCode::Backspace)); // at the very start: nothing
    assert_eq!(text(&e), vec![""]);
    assert_eq!(e.position(), (0, 0));
}

#[test]
fn append_and_line_ends() {
    let mut e = editor(&["abc"]);
    typed(&mut e, "A!");
    assert_eq!(text(&e), vec!["abc!"]);
    press(&mut e, special(KeyCode::Esc));
    typed(&mut e, "I>");
    assert_eq!(text(&e), vec![">abc!"]);
    press(&mut e, special(KeyCode::Esc));
    typed(&mut e, "a-");
    assert_eq!(text(&e), vec![">a-bc!"]); // Esc keeps the cursor column
}

#[test]
fn x_and_big_d() {
    let mut e = editor(&["hello", ""]);
    typed(&mut e, "x");
    assert_eq!(text(&e), vec!["ello", ""]);
    typed(&mut e, "llD");
    assert_eq!(text(&e), vec!["el", ""]);
    assert_eq!(e.position(), (1, 0));
    typed(&mut e, "jx"); // empty line: nothing to delete
    assert_eq!(text(&e), vec!["el", ""]);
}

#[test]
fn x_past_the_end_is_refused() {
    let mut e = editor(&["ab"]);
    typed(&mut e, "A");
    press(&mut e, special(KeyCode::Esc));
    assert_eq!(e.position(), (2, 0));
    assert!(!e.can_handle(key('x')));
}

#[test]
fn dd_removes_the_line() {
    let mut e = editor(&["a", "b", "c"]);
    typed(&mut e, "Gdd");
    assert_eq!(text(&e), vec!["a", "b"]);
    assert_eq!(e.position(), (0, 1));
    typed(&mut e, "dd");
    typed(&mut e, "dd");
    assert_eq!(text(&e), Vec::<String>::new());
    assert_eq!(e.position(), (0, 0));
}

#[test]
fn dw_de_db() {
    let mut e = editor(&["foo bar baz"]);
    typed(&mut e, "dw");
    assert_eq!(text(&e), vec!["bar baz"]);
    typed(&mut e, "de");
    assert_eq!(text(&e), vec![" baz"]);
    typed(&mut e, "$"); // unbound: nothing
    typed(&mut e, "ll");
    assert_eq!(e.position(), (2, 0));
    typed(&mut e, "db");
    assert_eq!(text(&e), vec![" az"]);
    assert_eq!(e.position(), (1, 0));
}

#[test]
fn dw_on_last_word_stays_on_line() {
    let mut e = editor(&["one two", "three"]);
    typed(&mut e, "w");
    typed(&mut e, "dw");
    assert_eq!(text(&e), vec!["one ", "three"]);
}

#[test]
fn operator_cancelled_by_other_key() {
    let mut e = editor(&["abc"]);
    typed(&mut e, "dzx");
    assert_eq!(text(&e), vec!["bc"]);
}

#[test]
fn command_mode() {
    let mut e = editor(&["abc"]);
    typed(&mut e, ":wq");
    assert_eq!(e.mode(), Mode::Command);
    assert_eq!(e.command_text(), "wq");
    press(&mut e, special(KeyCode::Backspace));
    assert_eq!(e.command_text(), "w");
    press(&mut e, special(KeyCode::Enter));
    assert_eq!(e.mode(), Mode::Normal);
    assert!(e.take_save_request());
    assert!(!e.take_save_request());
    assert!(!e.should_quit());
    typed(&mut e, ":qw");
    press(&mut e, special(KeyCode::Enter));
    assert!(e.take_save_request());
    assert!(e.should_quit());
}

#[test]
fn command_mode_escape_and_backspace() {
    let mut e = editor(&["abc"]);
    typed(&mut e, ":q");
    press(&mut e, special(KeyCode::Esc));
    assert_eq!(e.mode(), Mode::Normal);
    assert_eq!(e.command_text(), "");
    typed(&mut e, ":");
    press(&mut e, special(KeyCode::Backspace));
    assert_eq!(e.mode(), Mode::Normal);
    typed(&mut e, ":nope");
    press(&mut e, special(KeyCode::Enter));
    assert!(!e.should_quit());
    assert!(!e.take_save_request());
}

#[test]
fn ctrl_keys() {
    let mut e = editor(&["abc"]);
    press(&mut e, ctrl('s'));
    assert!(e.take_save_request());
    press(&mut e, ctrl('q'));
    assert!(e.should_quit());
}

#[test]
fn scroll_follows_the_cursor() {
    let lines: Vec<String> = (0..50).map(|i| format!("{i}")).collect();
    let refs: Vec<&str> = lines.iter().map(|s| s.as_str()).collect();
    let mut e = sized(Document::from_lines(&refs), 5, 4);
    typed(&mut e, "G");
    e.scroll();
    assert_eq!(e.offset(), (0, 47));
    typed(&mut e, "gg");
    e.scroll();
    assert_eq!(e.offset(), (0, 0));
}

#[test]
fn screen_lines_show_the_viewport() {
    let mut e = sized(Document::from_lines(&["abcdefgh", "xy"]), 3, 4);
    typed(&mut e, "lllll");
    e.scroll();
    assert_eq!(e.offset(), (3, 0));
    let shown = e.screen_lines();
    assert_eq!(shown, vec!["def".to_string(), "".to_string(), "~".to_string()]);
}

#[test]
fn save_through_document_mut() {
    let mut e = sized(Document::from_text("f", "a\nb"), 80, 24);
    typed(&mut e, "x");
    assert!(e.document().is_dirty());
    assert_eq!(e.document().save_text().as_deref(), Some("\nb"));
    e.document_mut().mark_saved();
    assert!(!e.document().is_dirty());
}

#[test]
fn scroll_needs_a_screen() {
    let mut e = Editor::new(Document::from_lines(&["a"]));
    assert!(!e.can_scroll());
    e.set_screen_size(10, 1);
    assert!(e.can_scroll());
    e.set_screen_size(10, 3);
    let shown = e.screen_lines();
    assert_eq!(shown, vec!["a".to_string(), "~".to_string()]);
}

#[test]
fn clamp_keeps_cursor_in_line() {
    let mut e = editor(&["abcdef", "ab"]);
    typed(&mut e, "lllll");
    assert_eq!(e.position(), (5, 0));
    typed(&mut e, "j");
    assert_eq!(e.position(), (1, 1));
    assert_eq!(e.current_row_len(), 2);
    e.clamp_x_to_row();
    assert_eq!(e.position(), (1, 1));
}

#[test]
fn count_prefix_repeats_a_motion() {
    let mut e = editor(&["a", "b", "c", "d", "e"]);
    typed(&mut e, "3");
    assert_eq!(e.count(), Some(3));
    assert_eq!(e.position(), (0, 0));
    typed(&mut e, "j");
    assert_eq!(e.position(), (0, 3));
    assert_eq!(e.count(), None);
    typed(&mut e, "9j"); // stops at the last line
    assert_eq!(e.position(), (0, 4));
}

#[test]
fn count_takes_several_digits_and_zero_after_a_digit() {
    let lines: Vec<String> = (0..15).map(|i| format!("line {i}")).collect();
    let refs: Vec<&str> = lines.iter().map(|s| s.as_str()).collect();
    let mut e = editor(&refs);
    typed(&mut e, "10");
    assert_eq!(e.count(), Some(10));
    typed(&mut e, "j");
    assert_eq!(e.position(), (0, 10));
}

#[test]
fn zero_alone_is_not_a_count() {
    let mut e = editor(&["abc"]);
    typed(&mut e, "0");
    assert_eq!(e.count(), None);
    typed(&mut e, "x");
    assert_eq!(text(&e), vec!["bc"]);
}

#[test]
fn count_repeats_delete_char() {
    let mut e = editor(&["abcdef"]);
    typed(&mut e, "3x");
    assert_eq!(text(&e), vec!["def"]);
}

#[test]
fn count_before_dd_removes_several_lines() {
    let mut e = editor(&["a", "b", "c", "d", "e"]);
    typed(&mut e, "j2dd");
    assert_eq!(text(&e), vec!["a", "d", "e"]);
    assert_eq!(e.register(), &Register::Line("b\nc".to_string()));
    assert_eq!(e.position(), (0, 1));
    assert_eq!(e.count(), None);
}

#[test]
fn count_dd_stops_at_the_last_line() {
    let mut e = editor(&["a", "b", "c"]);
    typed(&mut e, "j5dd");
    assert_eq!(text(&e), vec!["a"]);
    assert_eq!(e.register(), &Register::Line("b\nc".to_string()));
    assert_eq!(e.position(), (0, 0));
}

#[test]
fn count_before_dw_deletes_several_words() {
    let mut e = editor(&["one two three four"]);
    typed(&mut e, "3dw");
    assert_eq!(text(&e), vec!["four"]);
    assert_eq!(e.register(), &Register::Char("one two three ".to_string()));
}

#[test]
fn counted_dw_crosses_lines() {
    let mut e = editor(&["one two", "three four"]);
    typed(&mut e, "w2dw");
    assert_eq!(text(&e), vec!["one four"]);
    assert_eq!(e.register(), &Register::Char("two\nthree ".to_string()));
}

#[test]
fn dw_and_de_fill_the_register() {
    let mut e = editor(&["hello world"]);
    assert_eq!(e.register(), &Register::Char(String::new()));
    typed(&mut e, "dw");
    assert_eq!(e.register(), &Register::Char("hello ".to_string()));
    typed(&mut e, "de");
    assert_eq!(e.register(), &Register::Char("world".to_string()));
    assert_eq!(text(&e), vec![""]);
}

#[test]
fn status_line_shows_name_changes_mode_and_cursor() {
    let mut e = editor(&["a"]);
    assert_eq!(e.status_line(), "[No Name] | Normal | 1:1");
    typed(&mut e, "ix");
    assert_eq!(e.status_line(), "[No Name] [+] | Insert | 1:2");
    press(&mut e, special(KeyCode::Esc));
    typed(&mut e, ":");
    assert_eq!(e.status_line(), "[No Name] [+] | Command | 1:2");
}

#[test]
fn status_line_with_a_file_name() {
    let mut e = sized(Document::from_text("notes.txt", "ab\ncd\n"), 80, 24);
    typed(&mut e, "jl");
    assert_eq!(e.status_line(), "notes.txt | Normal | 2:2");
    let lines: Vec<String> = (0..12).map(|i| format!("{i}")).collect();
    let refs: Vec<&str> = lines.iter().map(|s| s.as_str()).collect();
    let mut e = editor(&refs);
    typed(&mut e, "11j");
    assert_eq!(e.status_line(), "[No Name] | Normal | 12:1");
}

#[test]
fn handle_key_refuses_a_key_that_cannot_apply() {
    let mut e = editor(&["\u{e9}a"]);
    typed(&mut e, "l"); // byte offset 1: inside the first char
    assert_eq!(e.position(), (1, 0));
    assert!(!e.handle_key(key('x')));
    assert_eq!(text(&e), vec!["\u{e9}a"]);
    assert_eq!(e.position(), (1, 0));
    assert!(e.handle_key(key('h')));
    assert!(e.handle_key(key('x')));
    assert_eq!(text(&e), vec!["a"]);
}

#[test]
fn only_changes_mark_the_document_dirty() {
    let mut e = sized(Document::from_text("f.txt", "a\nb"), 80, 24);
    typed(&mut e, "jkjk");
    assert!(!e.document().is_dirty());
    typed(&mut e, "dd");
    assert!(e.document().is_dirty());
    e.document_mut().mark_saved();
    assert!(!e.document().is_dirty());
    typed(&mut e, "x");
    assert!(e.document().is_dirty());
}

#[test]
fn enter_on_an_empty_document_marks_it_dirty() {
    let mut e = editor(&[]);
    typed(&mut e, "i");
    press(&mut e, special(KeyCode::Enter));
    assert!(e.document().is_dirty());
    assert_eq!(text(&e), vec![""]);
}

#[test]
fn keymap_tells_modifiers_apart() {
    let k = Keymap::default_vim();
    assert!(matches!(k.lookup_normal(&KeyBind::from_event(ctrl('d'))), Some(Action::HalfPageDown)));
    assert!(matches!(k.lookup_normal(&KeyBind::from_event(ctrl('s'))), Some(Action::Save)));
    assert!(k.lookup_normal(&KeyBind::from_event(ctrl('h'))).is_none());
    let alt_h = KeyEvent {
        code: KeyCode::Char('h'),
        modifiers: KeyModifiers { shift: false, control: false, alt: true, super_key: false, hyper: false, meta: false },
    };
    assert!(k.lookup_normal(&KeyBind::from_event(alt_h)).is_none());
    let copy = k.snapshot();
    assert!(matches!(copy.lookup_normal(&KeyBind::from_event(key('x'))), Some(Action::DeleteChar)));
}

#[test]
fn clean_flag_follows_saves_over_a_sequence_of_edits() {
    let mut d = Document::from_text("f.txt", "ab\ncd");
    assert!(!d.is_dirty());
    d.insert_char(0, 0, 'x');
    d.join_line(1);
    assert!(d.is_dirty());
    d.mark_saved();
    assert!(!d.is_dirty());
    assert_eq!(d.lines(), vec!["xabcd"]);
    d.join_line(0); // changes nothing
    assert!(!d.is_dirty());
    d.remove_line(5); // a missing line: still counts as an edit
    assert!(d.is_dirty());
    let mut n = Document::empty();
    n.insert_newline(0, 0);
    n.mark_saved(); // no file to record: stays dirty
    assert!(n.is_dirty());
}
