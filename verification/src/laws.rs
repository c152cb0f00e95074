//! Properties that relate several operations of the library.
use vstd::prelude::*;

use crate::command_line::{Command, command_of};
use crate::document::DocumentModel;
use crate::document::edit::{
    after_delete_char, after_delete_range, after_insert_char, after_insert_newline, after_join_line,
    after_remove_line, after_truncate, delete_char_ok, padded, text_between, insert_char_ok, insert_newline_ok, pos_le, rows_after_delete, skip_chars, take_chars,
};
use crate::document::search::{
    bwd_before, bwd_hit, bwd_hit_at, bwd_row, fwd_hit, fwd_hit_at, fwd_row, matches_at,
};
use crate::editor::{
    EditorModel, Mode, Operator, RegisterModel, clamp_x, clamp_y, current_row_len_of, decimal, digit_char, mode_name,
    scroll_ok, scrolled, status_text,
};
use crate::editor::action::{Action, action_ok, after_action};
use crate::editor::input::{
    after_command, after_command_key, after_insert_key, after_key, after_normal_key, after_operator, before_action, count_or_one, digit_of,
    insert_key_ok, motion_repeat, operator_ok, repeat_action,
};
use crate::editor::keymap::{KeyBind, KeyCode, KeyEvent, KeyModifiers, bind_of, ctrl_mods, default_bindings, no_mods};
use crate::document::row_or_empty;
use crate::text::{byte_len, char_index, is_boundary, is_char_start, join_lines, lemma_char_index_unique, lemma_split_join, lines_of, strip_cr};

verus! {

/// Every edit of a document leaves it marked as having unsaved changes, so a
/// clean flag means the lines are as they were when it was last set.
pub proof fn law_edits_mark_dirty(
    d: DocumentModel,
    x: usize,
    y: usize,
    ch: char,
    from: (usize, usize),
    to: (usize, usize),
)
    ensures
        after_insert_char(d, x, y, ch).dirty,
        after_delete_char(d, x, y).dirty,
        after_insert_newline(d, x, y).dirty,
        after_remove_line(d, y).dirty,
        after_truncate(d, x, y).dirty,
        after_delete_range(d, from, to).dirty,
        after_join_line(d, y).rows != d.rows ==> after_join_line(d, y).dirty,
        !after_join_line(d, y).dirty ==> after_join_line(d, y) == d,
{
}

/// Deleting the char just inserted gives back the line: after inserting `ch` at
/// byte offset `x` of an existing line `y`, deleting at `x` restores the lines.
pub proof fn law_insert_then_delete_char(d: DocumentModel, x: usize, y: usize, ch: char)
    requires
        y < d.rows.len(),
        insert_char_ok(d, x, y),
    ensures
        delete_char_ok(after_insert_char(d, x, y, ch), x, y),
        after_delete_char(after_insert_char(d, x, y, ch), x, y).rows == d.rows,
{
    let s = d.rows[y as int];
    let k = char_index(s, x as int);
    assert(is_char_start(s, x as int, k));
    let t = s.insert(k, ch);
    assert(t.take(k) =~= s.take(k));
    assert(is_char_start(t, x as int, k));
    lemma_char_index_unique(t, x as int, k);
    assert(t.remove(k) =~= s);
    assert(after_delete_char(after_insert_char(d, x, y, ch), x, y).rows =~= d.rows);
}

/// Joining the line just split gives back the lines: after splitting an
/// existing line `y` at byte offset `x`, joining line `y + 1` restores them.
pub proof fn law_split_then_join_line(d: DocumentModel, x: usize, y: usize)
    requires
        y < d.rows.len(),
        y + 1 <= usize::MAX,
        insert_newline_ok(d, x, y),
    ensures
        after_join_line(after_insert_newline(d, x, y), (y + 1) as usize).rows == d.rows,
{
    let s = d.rows[y as int];
    let k = char_index(s, x as int);
    assert(is_char_start(s, x as int, k));
    assert(s.take(k) + s.skip(k) =~= s);
    let d1 = after_insert_newline(d, x, y);
    assert(d1.rows.len() == d.rows.len() + 1);
    assert(after_join_line(d1, (y + 1) as usize).rows =~= d.rows);
}

/// Deleting an empty range changes no line.
pub proof fn law_delete_empty_range(d: DocumentModel, p: (usize, usize))
    ensures
        after_delete_range(d, p, p).rows == d.rows,
{
    let (sx, sy) = (p.0 as int, p.1 as int);
    if sy < d.rows.len() {
        let s = d.rows[sy];
        assert(take_chars(s, sx) + skip_chars(s, sx) =~= s);
        assert(rows_after_delete(d.rows, p, p) =~= d.rows);
    }
}

/// The order in which the two ends of a range are given does not matter.
pub proof fn law_delete_range_symmetric(d: DocumentModel, a: (usize, usize), b: (usize, usize))
    ensures
        after_delete_range(d, a, b) == after_delete_range(d, b, a),
{
    if pos_le(a, b) && pos_le(b, a) {
        assert(a == b);
    }
}

/// A forward search finds the pattern where it says: the text at the returned
/// position is the pattern.
pub proof fn law_find_hit_is_match(
    rows: Seq<Seq<char>>,
    pat: Seq<char>,
    fx: int,
    fy: int,
    i: int,
    x: int,
)
    requires
        fwd_hit_at(rows, pat, fx, fy, i, x),
    ensures
        matches_at(rows[fwd_row(rows.len() as int, fy, i)], pat, x),
        rows[fwd_row(rows.len() as int, fy, i)].subrange(x, x + pat.len()) == pat,
{
}

/// A forward search, wrapping around the document, misses no occurrence: if
/// the pattern occurs anywhere, some step of the search finds it.
pub proof fn law_find_complete(rows: Seq<Seq<char>>, pat: Seq<char>, fx: int, fy: int, y: int, x: int)
    requires
        0 <= y < rows.len(),
        matches_at(rows[y], pat, x),
    ensures
        exists|i: int| 0 <= i <= rows.len() && #[trigger] fwd_hit(rows, pat, fx, fy, i),
{
    let n = rows.len() as int;
    let i0 = (y - fy) % n;
    assert(fwd_row(n, fy, i0) == y) by {
        vstd::arithmetic::div_mod::lemma_add_mod_noop_right(fy, y - fy, n);
        vstd::arithmetic::div_mod::lemma_small_mod(y as nat, n as nat);
    }
    if i0 > 0 {
        assert(fwd_hit_at(rows, pat, fx, fy, i0, x));
        assert(fwd_hit(rows, pat, fx, fy, i0));
    } else {
        assert(fwd_row(n, fy, n) == y) by {
            vstd::arithmetic::div_mod::lemma_mod_add_multiples_vanish(fy, n);
        }
        assert(fwd_hit_at(rows, pat, fx, fy, n, x));
        assert(fwd_hit(rows, pat, fx, fy, n));
    }
}

/// A backward search finds the pattern where it says, before the limit of its step.
pub proof fn law_rfind_hit_is_match(
    rows: Seq<Seq<char>>,
    pat: Seq<char>,
    fx: int,
    fy: int,
    i: int,
    x: int,
)
    requires
        bwd_hit_at(rows, pat, fx, fy, i, x),
    ensures
        matches_at(rows[bwd_row(rows.len() as int, fy, i)], pat, x),
        x < bwd_before(rows, fx, fy, i),
{
}

/// A backward search, wrapping around the document, misses no occurrence: if
/// a (non-empty) pattern occurs anywhere, some step of the search finds it.
pub proof fn law_rfind_complete(rows: Seq<Seq<char>>, pat: Seq<char>, fx: int, fy: int, y: int, x: int)
    requires
        0 <= y < rows.len(),
        pat.len() > 0,
        matches_at(rows[y], pat, x),
    ensures
        exists|i: int| 0 <= i <= rows.len() && #[trigger] bwd_hit(rows, pat, fx, fy, i),
{
    let n = rows.len() as int;
    let sfy = crate::document::search::signed_row(fy);
    let i0 = (sfy - y) % n;
    assert(bwd_row(n, fy, i0) == y) by {
        vstd::arithmetic::div_mod::lemma_sub_mod_noop_right(sfy, sfy - y, n);
        vstd::arithmetic::div_mod::lemma_small_mod(y as nat, n as nat);
    }
    if i0 > 0 {
        assert(bwd_hit_at(rows, pat, fx, fy, i0, x));
        assert(bwd_hit(rows, pat, fx, fy, i0));
    } else {
        assert(bwd_row(n, fy, n) == y) by {
            vstd::arithmetic::div_mod::lemma_mod_sub_multiples_vanish(sfy, n);
        }
        assert(bwd_hit_at(rows, pat, fx, fy, n, x));
        assert(bwd_hit(rows, pat, fx, fy, n));
    }
}

/// After scrolling, the cursor is on screen: within the text rows when there is
/// at least one, and within the columns when there is at least one.
pub proof fn law_scroll_shows_cursor(m: EditorModel)
    requires
        scroll_ok(m),
    ensures
        ({
            let s = scrolled(m);
            &&& m.screen_rows >= 2 ==> s.offset_y <= s.position_y < s.offset_y + (m.screen_rows - 1)
            &&& m.screen_cols >= 1 ==> s.offset_x <= s.position_x < s.offset_x + m.screen_cols
        }),
{
}


/// Saving and reading back gives the same lines: splitting the text that
/// `save_text` writes (the lines joined with `'\n'`) as `from_text` does gives
/// back the lines, provided no line holds a `'\n'`, no line but the last ends
/// with `'\r'`, and the last line is not empty.
pub proof fn law_save_then_open(rows: Seq<Seq<char>>)
    requires
        forall|i: int, j: int| 0 <= i < rows.len() && 0 <= j < rows[i].len() ==> rows[i][j] != '\n',
        forall|i: int| 0 <= i < rows.len() - 1 ==> strip_cr(#[trigger] rows[i]) == rows[i],
        rows.len() > 0 ==> rows.last().len() > 0,
    ensures
        lines_of(join_lines(rows)) == rows,
{
    if rows.len() == 0 {
        assert(lines_of(join_lines(rows)) =~= rows);
    } else {
        lemma_split_join(rows);
        assert(rows.drop_last().map_values(|r: Seq<char>| strip_cr(r)).push(rows.last()) =~= rows);
    }
}


/// In Insert mode, Backspace takes back the char just typed: the lines and the
/// cursor are as before typing it.
#[verifier::spinoff_prover]
#[verifier::rlimit(40)]
pub proof fn law_type_then_backspace(m: EditorModel, key: KeyEvent, back: KeyEvent)
    requires
        m.mode == Mode::Insert,
        key.code is Char,
        back.code == KeyCode::Backspace,
        insert_key_ok(m, key),
        (m.position_y as int) < m.document.rows.len(),
    ensures
        insert_key_ok(after_insert_key(m, key), back),
        after_insert_key(after_insert_key(m, key), back).document.rows == m.document.rows,
        after_insert_key(after_insert_key(m, key), back).position_x == m.position_x,
        after_insert_key(after_insert_key(m, key), back).position_y == m.position_y,
{
    let c = key.code->Char_0;
    let (x, y) = (m.position_x as usize, m.position_y as usize);
    law_insert_then_delete_char(m.document, x, y, c);
    let m1 = after_insert_key(m, key);
    assert(m1.document == after_insert_char(m.document, x, y, c));
    assert(m1.position_x == m.position_x + 1 && m1.position_y == m.position_y);
    assert(after_insert_key(m1, back).document == after_delete_char(m1.document, x, y));
}

/// In Insert mode, Backspace at the start of a line takes back the line break
/// just typed: the lines and the cursor are as before pressing Enter.
pub proof fn law_enter_then_backspace(m: EditorModel, enter: KeyEvent, back: KeyEvent)
    requires
        m.mode == Mode::Insert,
        enter.code == KeyCode::Enter,
        back.code == KeyCode::Backspace,
        insert_key_ok(m, enter),
        (m.position_y as int) < m.document.rows.len(),
    ensures
        after_insert_key(after_insert_key(m, enter), back).document.rows == m.document.rows,
        after_insert_key(after_insert_key(m, enter), back).position_x == m.position_x,
        after_insert_key(after_insert_key(m, enter), back).position_y == m.position_y,
{
    let (x, y) = (m.position_x as usize, m.position_y as usize);
    law_split_then_join_line(m.document, x, y);
    let s = m.document.rows[y as int];
    let k = char_index(s, x as int);
    assert(is_char_start(s, x as int, k));
    let m1 = after_insert_key(m, enter);
    assert(row_or_empty(m1.document.rows, y as int) == s.take(k));
}

/// Esc leaves Insert and Command mode for Normal mode without touching the text.
pub proof fn law_escape_to_normal(m: EditorModel, esc: KeyEvent)
    requires
        m.mode == Mode::Insert || m.mode == Mode::Command,
        esc.code == KeyCode::Esc,
    ensures
        after_key(m, esc).mode == Mode::Normal,
        after_key(m, esc).document == m.document,
{
}

/// `gg` in Normal mode goes to the first line, without touching the text.
#[verifier::rlimit(60)]
pub proof fn law_gg_goes_to_top(m: EditorModel, g: KeyEvent)
    requires
        m.mode == Mode::Normal,
        m.pending_op is None,
        !m.awaiting_g,
        g.code == KeyCode::Char('g'),
        !g.modifiers.control,
    ensures
        after_normal_key(after_normal_key(m, g), g).position_y == 0,
        after_normal_key(after_normal_key(m, g), g).document == m.document,
        !after_normal_key(after_normal_key(m, g), g).awaiting_g,
        after_normal_key(after_normal_key(m, g), g).count is None,
{
    assert(digit_of(g.code) is None);
    let m1 = after_normal_key(m, g);
    assert(m1 == EditorModel { awaiting_g: true, ..m });
    let m2 = EditorModel { awaiting_g: false, ..m1 };
    assert(after_normal_key(m1, g) == EditorModel { count: None, ..after_action(m2, Action::GotoTop) });
    reveal(after_action);
}


/// A count typed before a key repeats the key's action: a digit from 1 to 9
/// followed by a key bound to an action other than an operator carries out that
/// action as many times as the digit says, and leaves no count behind.
pub proof fn law_count_repeats_action(m: EditorModel, digit: KeyEvent, key: KeyEvent, d: nat)
    requires
        m.mode == Mode::Normal,
        m.pending_op is None,
        !m.awaiting_g,
        m.count is None,
        1 <= d <= 9,
        digit_of(digit.code) == Some(d),
        digit_of(key.code) is None,
        !(key.code == KeyCode::Char('g') && !key.modifiers.control),
        m.keymap.contains_key(bind_of(key)),
        !(m.keymap[bind_of(key)] is StartOperator),
    ensures
        after_key(m, digit).count == Some(d as usize),
        after_key(after_key(m, digit), key) == repeat_action(before_action(m), m.keymap[bind_of(key)], d),
        after_key(after_key(m, digit), key).count is None,
{
    let m1 = after_key(m, digit);
    assert(m1 == EditorModel { awaiting_g: false, count: Some(d as usize), ..m });
    assert(before_action(m1) == before_action(m));
    lemma_repeat_keeps_count(before_action(m), m.keymap[bind_of(key)], d);
}

/// Carrying out actions never sets a count.
pub proof fn lemma_repeat_keeps_count(m: EditorModel, action: Action, k: nat)
    ensures
        repeat_action(m, action, k).count == m.count,
    decreases k,
{
    if k > 0 {
        lemma_repeat_keeps_count(m, action, (k - 1) as nat);
        lemma_action_marks_changes(repeat_action(m, action, (k - 1) as nat), action);
    }
}

/// Going from document `a` to document `b` keeps track of unsaved changes: a
/// dirty flag stays set, and any change to the lines sets it.
pub open spec fn marks_changes(a: DocumentModel, b: DocumentModel) -> bool {
    &&& a.dirty ==> b.dirty
    &&& b.rows != a.rows ==> b.dirty
}

/// Keeping track of unsaved changes carries over a sequence of steps.
pub proof fn lemma_marks_changes_trans(a: DocumentModel, b: DocumentModel, c: DocumentModel)
    requires
        marks_changes(a, b),
        marks_changes(b, c),
    ensures
        marks_changes(a, c),
{
}

/// Every action keeps track of unsaved changes, and leaves the count alone.
#[verifier::spinoff_prover]
#[verifier::rlimit(100)]
pub proof fn lemma_action_marks_changes(m: EditorModel, action: Action)
    ensures
        marks_changes(m.document, after_action(m, action).document),
        after_action(m, action).count == m.count,
{
    match action {
        Action::DeleteChar => {
            assert(marks_changes(m.document, after_action(m, action).document)) by {
                reveal(after_action);
            }
        },
        Action::DeleteToLineEnd => {
            assert(marks_changes(m.document, after_action(m, action).document)) by {
                reveal(after_action);
            }
        },
        _ => {
            assert(after_action(m, action).document == m.document) by {
                reveal(after_action);
            }
        },
    }
    assert(after_action(m, action).count == m.count) by {
        reveal(after_action);
    }
}

/// Repeating an action keeps track of unsaved changes.
pub proof fn lemma_repeat_marks_changes(m: EditorModel, action: Action, k: nat)
    ensures
        marks_changes(m.document, repeat_action(m, action, k).document),
    decreases k,
{
    if k > 0 {
        let prev = repeat_action(m, action, (k - 1) as nat);
        lemma_repeat_marks_changes(m, action, (k - 1) as nat);
        lemma_action_marks_changes(prev, action);
        lemma_marks_changes_trans(m.document, prev.document, after_action(prev, action).document);
    }
}

/// Applying an operator keeps track of unsaved changes.
pub proof fn lemma_operator_marks_changes(m: EditorModel, op: Operator, key: KeyEvent, n: usize)
    ensures
        marks_changes(m.document, after_operator(m, op, key, n).document),
{
    reveal(after_operator);
}

/// No key press loses track of unsaved changes: it never clears the dirty
/// flag, and a key press that changes the lines sets it. So a document that
/// is not dirty has the lines it was opened or last saved with.
#[verifier::rlimit(60)]
pub proof fn law_key_marks_changes(m: EditorModel, key: KeyEvent)
    ensures
        marks_changes(m.document, after_key(m, key).document),
{
    match m.mode {
        Mode::Normal => {
            let m1 = EditorModel { awaiting_g: false, ..m };
            match m.pending_op {
                Some(op) => {
                    lemma_operator_marks_changes(
                        EditorModel { pending_op: None, count: None, ..m1 },
                        op,
                        key,
                        count_or_one(m),
                    );
                },
                None => {
                    lemma_action_marks_changes(m1, Action::GotoTop);
                    if m.keymap.contains_key(bind_of(key)) {
                        lemma_repeat_marks_changes(before_action(m), m.keymap[bind_of(key)], count_or_one(m) as nat);
                    }
                },
            }
        },
        Mode::Insert => {},
        Mode::Command => {},
    }
}

/// A call of one of the public methods of `Document` that change it, with its
/// arguments.
pub enum DocumentCall {
    InsertChar(usize, usize, char),
    DeleteChar(usize, usize),
    JoinLine(usize),
    InsertNewline(usize, usize),
    RemoveLine(usize),
    Truncate(usize, usize),
    DeleteRange((usize, usize), (usize, usize)),
    MarkSaved,
}

/// The document after one call, as that method's contract states it.
pub open spec fn after_call(d: DocumentModel, call: DocumentCall) -> DocumentModel {
    match call {
        DocumentCall::InsertChar(x, y, ch) => after_insert_char(d, x, y, ch),
        DocumentCall::DeleteChar(x, y) => after_delete_char(d, x, y),
        DocumentCall::JoinLine(y) => after_join_line(d, y),
        DocumentCall::InsertNewline(x, y) => after_insert_newline(d, x, y),
        DocumentCall::RemoveLine(y) => after_remove_line(d, y),
        DocumentCall::Truncate(x, y) => after_truncate(d, x, y),
        DocumentCall::DeleteRange(from, to) => after_delete_range(d, from, to),
        DocumentCall::MarkSaved => DocumentModel {
            dirty: if d.filename is Some { false } else { d.dirty },
            ..d
        },
    }
}

/// The document after a sequence of calls, in order.
pub open spec fn after_calls(d: DocumentModel, calls: Seq<DocumentCall>) -> DocumentModel
    decreases calls.len(),
{
    if calls.len() == 0 {
        d
    } else {
        after_call(after_calls(d, calls.drop_last()), calls.last())
    }
}

/// The lines as they were when last written to the backing file: at the last
/// `mark_saved` that had a file to record, or else at the start.
pub open spec fn saved_rows(d: DocumentModel, calls: Seq<DocumentCall>) -> Seq<Seq<char>>
    decreases calls.len(),
{
    if calls.len() == 0 {
        d.rows
    } else {
        let before = after_calls(d, calls.drop_last());
        if calls.last() is MarkSaved && before.filename is Some {
            before.rows
        } else {
            saved_rows(d, calls.drop_last())
        }
    }
}

/// A document that is not dirty has no unsaved changes: starting from a clean
/// document (as `empty`, `from_lines` and `from_text` make one), after any
/// sequence of calls of its public methods, a clear dirty flag means that the
/// lines are those of the last save (or of the start, if none was recorded).
pub proof fn law_clean_means_saved(d: DocumentModel, calls: Seq<DocumentCall>)
    requires
        !d.dirty,
    ensures
        !after_calls(d, calls).dirty ==> after_calls(d, calls).rows == saved_rows(d, calls),
        after_calls(d, calls).filename == d.filename,
    decreases calls.len(),
{
    if calls.len() > 0 {
        law_clean_means_saved(d, calls.drop_last());
        let before = after_calls(d, calls.drop_last());
        match calls.last() {
            DocumentCall::InsertChar(x, y, ch) => law_edits_mark_dirty(before, x, y, ch, (0, 0), (0, 0)),
            DocumentCall::DeleteChar(x, y) => law_edits_mark_dirty(before, x, y, 'a', (0, 0), (0, 0)),
            DocumentCall::JoinLine(y) => law_edits_mark_dirty(before, 0, y, 'a', (0, 0), (0, 0)),
            DocumentCall::InsertNewline(x, y) => law_edits_mark_dirty(before, x, y, 'a', (0, 0), (0, 0)),
            DocumentCall::RemoveLine(y) => law_edits_mark_dirty(before, 0, y, 'a', (0, 0), (0, 0)),
            DocumentCall::Truncate(x, y) => law_edits_mark_dirty(before, x, y, 'a', (0, 0), (0, 0)),
            DocumentCall::DeleteRange(from, to) => law_edits_mark_dirty(before, 0, 0, 'a', from, to),
            DocumentCall::MarkSaved => {},
        }
    }
}

/// The editor after a sequence of key presses, in order.
pub open spec fn after_keys(m: EditorModel, keys: Seq<KeyEvent>) -> EditorModel
    decreases keys.len(),
{
    if keys.len() == 0 {
        m
    } else {
        after_key(after_keys(m, keys.drop_last()), keys.last())
    }
}

/// No sequence of key presses loses track of unsaved changes: if the document
/// was clean before them and is still clean after them, its lines are unchanged.
pub proof fn law_keys_mark_changes(m: EditorModel, keys: Seq<KeyEvent>)
    ensures
        marks_changes(m.document, after_keys(m, keys).document),
        !m.document.dirty && !after_keys(m, keys).document.dirty ==> after_keys(m, keys).document.rows
            == m.document.rows,
    decreases keys.len(),
{
    if keys.len() > 0 {
        let before = after_keys(m, keys.drop_last());
        law_keys_mark_changes(m, keys.drop_last());
        law_key_marks_changes(before, keys.last());
        lemma_marks_changes_trans(m.document, before.document, after_key(before, keys.last()).document);
    }
}

/// Clamping keeps the cursor column within the current line (at most its last
/// column), and leaves a column already there alone.
pub proof fn law_clamp_x_within_line(m: EditorModel)
    ensures
        clamp_x(m).position_x <= current_row_len_of(m).saturating_sub(1) || clamp_x(m).position_x
            == m.position_x,
        m.position_x <= current_row_len_of(m).saturating_sub(1) ==> clamp_x(m) == m,
        clamp_x(m).position_x <= m.position_x,
{
}

/// Clamping keeps the cursor row within the document (at most its last line),
/// and leaves a row already there alone.
pub proof fn law_clamp_y_within_document(m: EditorModel)
    ensures
        clamp_y(m).position_y <= (((m.document.rows.len() as usize).saturating_sub(1)) as u16),
        m.position_y <= (((m.document.rows.len() as usize).saturating_sub(1)) as u16) ==> clamp_y(m) == m,
{
}

/// The last column of the cursor's line (0 for an empty or missing line).
pub open spec fn last_column(m: EditorModel) -> u16 {
    current_row_len_of(m).saturating_sub(1)
}

/// Every vertical cursor action keeps the column within the line it lands on:
/// the column stays where it was if that line reaches it, and otherwise goes
/// to the line's last column. The row is one up for `k` (not above the first
/// line), one down for `j` (not past the last line), the first line for `gg`.
/// The text and the mode are untouched.
pub proof fn law_vertical_moves_clamp_column(m: EditorModel, action: Action)
    requires
        action == Action::MoveUp || action == Action::MoveDown || action == Action::GotoTop
            || action == Action::GotoBottom || action == Action::HalfPageUp || action == Action::HalfPageDown,
    ensures
        ({
            let r = after_action(m, action);
            &&& r.position_x == (if m.position_x <= last_column(r) { m.position_x } else { last_column(r) })
            &&& r.position_x <= last_column(r) || r.position_x == m.position_x
            &&& r.document == m.document
            &&& r.mode == m.mode
            &&& action == Action::MoveUp ==> r.position_y == (if m.position_y > 0 { m.position_y - 1 } else { 0 })
            &&& action == Action::MoveDown && m.position_y < u16::MAX ==> r.position_y == (if m.position_y + 1
                < m.document.rows.len() {
                m.position_y + 1
            } else {
                m.position_y as int
            })
            &&& action == Action::GotoTop ==> r.position_y == 0
        }),
{
    lemma_vertical_is_clamped(m, action);
    lemma_vertical_rows(m, action);
}

/// A vertical action only sets the row, then keeps the column within the line.
#[verifier::spinoff_prover]
proof fn lemma_vertical_is_clamped(m: EditorModel, action: Action)
    requires
        action == Action::MoveUp || action == Action::MoveDown || action == Action::GotoTop
            || action == Action::GotoBottom || action == Action::HalfPageUp || action == Action::HalfPageDown,
    ensures
        after_action(m, action) == clamp_x(EditorModel { position_y: after_action(m, action).position_y, ..m }),
{
    if action == Action::MoveUp {
        assert(after_action(m, Action::MoveUp) == clamp_x(
            EditorModel { position_y: m.position_y.saturating_sub(1), ..m },
        )) by {
            reveal(after_action);
        }
    } else if action == Action::MoveDown {
        assert(after_action(m, Action::MoveDown) == clamp_x(
            if (m.position_y as int) + 1 < m.document.rows.len() {
                EditorModel { position_y: m.position_y.saturating_add(1), ..m }
            } else {
                m
            },
        )) by {
            reveal(after_action);
        }
    } else if action == Action::GotoTop {
        assert(after_action(m, Action::GotoTop) == clamp_x(EditorModel { position_y: 0, ..m })) by {
            reveal(after_action);
        }
    } else if action == Action::GotoBottom {
        assert(after_action(m, Action::GotoBottom) == clamp_x(
            EditorModel { position_y: ((m.document.rows.len() as usize).saturating_sub(1)) as u16, ..m },
        )) by {
            reveal(after_action);
        }
    } else if action == Action::HalfPageUp {
        assert(after_action(m, Action::HalfPageUp) == clamp_x(
            EditorModel { position_y: m.position_y.saturating_sub(m.screen_rows / 2), ..m },
        )) by {
            reveal(after_action);
        }
    } else {
        let max_y = (m.document.rows.len() as usize) as u16;
        let new_y = m.position_y.saturating_add(m.screen_rows / 2);
        assert(after_action(m, Action::HalfPageDown) == clamp_x(
            EditorModel { position_y: if new_y >= max_y { max_y.saturating_sub(1) } else { new_y }, ..m },
        )) by {
            reveal(after_action);
        }
    }
}

/// The row a vertical action lands on.
#[verifier::spinoff_prover]
proof fn lemma_vertical_rows(m: EditorModel, action: Action)
    ensures
        action == Action::MoveUp ==> after_action(m, action).position_y == (if m.position_y > 0 {
            m.position_y - 1
        } else {
            0
        }),
        action == Action::MoveDown && m.position_y < u16::MAX ==> after_action(m, action).position_y == (
        if m.position_y + 1 < m.document.rows.len() {
            m.position_y + 1
        } else {
            m.position_y as int
        }),
        action == Action::GotoTop ==> after_action(m, action).position_y == 0,
{
    reveal(after_action);
}

/// An operator on the word-end motion (`e`, `E`) with any count `n` of at least
/// one deletes from the cursor through the char at the `n`-th word end, that
/// char included, and puts exactly that text in the register; the cursor goes
/// to the start of the deleted range (kept within its line).
pub proof fn law_word_end_operator_includes_end(m: EditorModel, op: Operator, key: KeyEvent, n: usize)
    requires
        key.code == KeyCode::Char('e') || key.code == KeyCode::Char('E'),
        n >= 1,
        operator_ok(m, key, n),
    ensures
        ({
            let from = (m.position_x as usize, m.position_y as usize);
            let t = motion_repeat(m.document.rows, key.code, from, n as nat);
            let end = ((t.0 + 1) as usize, t.1);
            let r = after_operator(m, op, key, n);
            &&& r.register == RegisterModel::Char(text_between(m.document.rows, from, end))
            &&& r.document == after_delete_range(m.document, from, end)
            &&& r.document.dirty
        }),
{
    reveal(after_operator);
}

/// `dd` with a count `n` removes the `n` lines from the cursor's on (all the
/// remaining ones when fewer are left), keeps the lines before and after in
/// order, and puts the removed lines, joined with line breaks, in the register.
pub proof fn law_counted_dd(m: EditorModel, op: Operator, key: KeyEvent, n: usize)
    requires
        key.code == KeyCode::Char('d'),
        (m.position_y as int) < m.document.rows.len(),
        n >= 1,
        operator_ok(m, key, n),
    ensures
        ({
            let y = m.position_y as int;
            let rows = m.document.rows;
            let last = if y + n < rows.len() { y + n } else { rows.len() as int };
            let r = after_operator(m, op, key, n);
            &&& r.document.rows == rows.take(y) + rows.skip(last)
            &&& r.document.rows.len() == rows.len() - (last - y)
            &&& r.register == RegisterModel::Line(join_lines(rows.subrange(y, last)))
            &&& r.document.dirty
        }),
{
    reveal(after_operator);
}

/// The Normal-mode keymap binds the small word keys to the small-word motions
/// and their capitals to the big-word (WORD) motions, so each pair names
/// distinct actions; and it binds the other keys as the editor documents them.
pub proof fn law_default_keymap_bindings()
    ensures
        ({
            let k = default_bindings();
            let p = |c: char| KeyBind { code: KeyCode::Char(c), mods: no_mods() };
            let c = |ch: char| KeyBind { code: KeyCode::Char(ch), mods: ctrl_mods() };
            &&& k.contains_key(p('w')) && k[p('w')] == Action::WordForward(false)
            &&& k.contains_key(p('W')) && k[p('W')] == Action::WordForward(true)
            &&& k.contains_key(p('b')) && k[p('b')] == Action::WordBackward(false)
            &&& k.contains_key(p('B')) && k[p('B')] == Action::WordBackward(true)
            &&& k.contains_key(p('e')) && k[p('e')] == Action::WordEnd(false)
            &&& k.contains_key(p('E')) && k[p('E')] == Action::WordEnd(true)
            &&& k[p('w')] != k[p('W')] && k[p('b')] != k[p('B')] && k[p('e')] != k[p('E')]
            &&& k.contains_key(p('h')) && k[p('h')] == Action::MoveLeft
            &&& k.contains_key(p('l')) && k[p('l')] == Action::MoveRight
            &&& k.contains_key(p('k')) && k[p('k')] == Action::MoveUp
            &&& k.contains_key(p('j')) && k[p('j')] == Action::MoveDown
            &&& k.contains_key(p('G')) && k[p('G')] == Action::GotoBottom
            &&& k.contains_key(c('u')) && k[c('u')] == Action::HalfPageUp
            &&& k.contains_key(c('d')) && k[c('d')] == Action::HalfPageDown
            &&& k.contains_key(p('i')) && k[p('i')] == Action::InsertBefore
            &&& k.contains_key(p('a')) && k[p('a')] == Action::InsertAfter
            &&& k.contains_key(p('I')) && k[p('I')] == Action::InsertLineStart
            &&& k.contains_key(p('A')) && k[p('A')] == Action::InsertLineEnd
            &&& k.contains_key(p(':')) && k[p(':')] == Action::EnterCommand
            &&& k.contains_key(p('x')) && k[p('x')] == Action::DeleteChar
            &&& k.contains_key(p('D')) && k[p('D')] == Action::DeleteToLineEnd
            &&& k.contains_key(p('d')) && k[p('d')] == Action::StartOperator(Operator::Delete)
            &&& k.contains_key(c('s')) && k[c('s')] == Action::Save
            &&& k.contains_key(c('q')) && k[c('q')] == Action::Quit
        }),
{
}

/// Running the command line quits exactly when the text typed is `q`, `wq` or
/// `qw`, asks for a save exactly when it is `w`, `wq` or `qw` (a quit or save
/// asked for earlier stays asked for), and clears the command line; nothing
/// else changes.
pub proof fn law_command_quits_and_saves(m: EditorModel)
    ensures
        ({
            let cl = m.command_line;
            let r = after_command(m);
            &&& r.should_quit == (m.should_quit || cl == seq!['q'] || cl == seq!['w', 'q'] || cl == seq!['q', 'w'])
            &&& r.save_requested == (m.save_requested || cl == seq!['w'] || cl == seq!['w', 'q'] || cl
                == seq!['q', 'w'])
            &&& r.command_line.len() == 0
            &&& r.document == m.document
            &&& r.position_x == m.position_x && r.position_y == m.position_y
        }),
{
    let cl = m.command_line;
    let (q, w, wq, qw) = (seq!['q'], seq!['w'], seq!['w', 'q'], seq!['q', 'w']);
    assert(q.len() == 1 && w.len() == 1 && wq.len() == 2 && qw.len() == 2);
    assert(q[0] == 'q' && w[0] == 'w' && wq[0] == 'w' && qw[0] == 'q');
    assert(q != w && wq != qw);
    if cl == w {
        assert(command_of(cl) == Command::Save);
    } else if cl == q {
        assert(command_of(cl) == Command::Quit);
    } else if cl == wq || cl == qw {
        assert(command_of(cl) == Command::SaveQuit);
    } else {
        assert(command_of(cl) == Command::Unknown);
    }
}

/// Scrolling moves the viewport as little as possible: offsets that already
/// show the cursor stay; a cursor above (left of) the view becomes the top row
/// (first column); a cursor below (right of) it becomes the bottom text row
/// (last column); and no other offset that shows the cursor is closer to the
/// old one.
pub proof fn law_scroll_is_minimal(m: EditorModel)
    requires
        scroll_ok(m),
        m.screen_rows >= 2,
        m.screen_cols >= 1,
    ensures
        ({
            let s = scrolled(m);
            let rows = m.screen_rows - 1;
            let cols = m.screen_cols as int;
            &&& m.offset_y <= m.position_y < m.offset_y + rows ==> s.offset_y == m.offset_y
            &&& m.position_y < m.offset_y ==> s.offset_y == m.position_y
            &&& m.position_y >= m.offset_y + rows ==> s.offset_y + rows == m.position_y + 1
            &&& m.offset_x <= m.position_x < m.offset_x + cols ==> s.offset_x == m.offset_x
            &&& m.position_x < m.offset_x ==> s.offset_x == m.position_x
            &&& m.position_x >= m.offset_x + cols ==> s.offset_x + cols == m.position_x + 1
            &&& forall|o: int|
                o <= m.position_y < o + rows ==> #[trigger] dist(o, m.offset_y as int) >= dist(
                    s.offset_y as int,
                    m.offset_y as int,
                )
            &&& forall|o: int|
                o <= m.position_x < o + cols ==> #[trigger] dist(o, m.offset_x as int) >= dist(
                    s.offset_x as int,
                    m.offset_x as int,
                )
            &&& s.position_x == m.position_x && s.position_y == m.position_y && s.document == m.document
        }),
{
}

/// The distance between two numbers.
pub open spec fn dist(a: int, b: int) -> int {
    if a >= b {
        a - b
    } else {
        b - a
    }
}

/// The actions that move along a line or switch mode: `h` one column left
/// (not before the first), `l` one column right while a char follows, `i`
/// Insert mode in place, `a` Insert mode one column right, `I` at column 0,
/// `A` past the line's end, `:` Command mode; `d` waits for a motion, Ctrl+s
/// asks for a save and Ctrl+q for quitting. None of them touches the text or
/// the row.
#[verifier::spinoff_prover]
#[verifier::rlimit(100)]
pub proof fn law_line_and_mode_actions(m: EditorModel, action: Action)
    ensures
        ({
            let r = after_action(m, action);
            let (x, y) = (m.position_x, m.position_y);
            &&& action == Action::MoveLeft ==> r.position_x == (if x > 0 { x - 1 } else { 0 }) && r.mode == m.mode
            &&& action == Action::MoveRight ==> r.position_x == (if x + 1 < current_row_len_of(m) {
                x + 1
            } else {
                x as int
            }) && r.mode == m.mode
            &&& action == Action::InsertBefore ==> r.position_x == x && r.mode == Mode::Insert
            &&& action == Action::InsertAfter && x < u16::MAX ==> r.position_x == x + 1 && r.mode == Mode::Insert
            &&& action == Action::InsertLineStart ==> r.position_x == 0 && r.mode == Mode::Insert
            &&& action == Action::InsertLineEnd ==> r.position_x == current_row_len_of(m) && r.mode == Mode::Insert
            &&& action == Action::EnterCommand ==> r.position_x == x && r.mode == Mode::Command
            &&& action == Action::Save ==> r.save_requested && r.position_x == x
            &&& action == Action::Quit ==> r.should_quit && r.position_x == x
            &&& action matches Action::StartOperator(op) ==> r.pending_op == Some(op) && r.position_x == x
            &&& (action == Action::MoveLeft || action == Action::MoveRight || action == Action::InsertBefore
                || action == Action::InsertAfter || action == Action::InsertLineStart || action
                == Action::InsertLineEnd || action == Action::EnterCommand || action == Action::Save || action
                == Action::Quit || action is StartOperator) ==> r.document == m.document && r.position_y == y
        }),
{
    reveal(after_action);
}

/// The far vertical moves: `G` goes to the last line (the first of an empty
/// document), Ctrl+u half a screen up (not above the first line), Ctrl+d half
/// a screen down (not past the last line).
pub proof fn law_far_vertical_moves(m: EditorModel, action: Action)
    requires
        m.document.rows.len() <= u16::MAX,
    ensures
        ({
            let r = after_action(m, action);
            let len = m.document.rows.len() as int;
            let half = m.screen_rows / 2;
            &&& action == Action::GotoBottom ==> r.position_y == (if len > 0 { len - 1 } else { 0 })
            &&& action == Action::HalfPageUp ==> r.position_y == (if m.position_y >= half {
                m.position_y - half
            } else {
                0
            })
            &&& action == Action::HalfPageDown && m.position_y + half <= u16::MAX ==> r.position_y == (if m.position_y
                + half < len {
                m.position_y + half
            } else if len > 0 {
                len - 1
            } else {
                0
            })
        }),
{
    reveal(after_action);
}

/// `x` on a non-empty line removes exactly the char under the cursor (the
/// line gets one char shorter, the chars before and after it stay in order,
/// the other lines stay, the cursor stays on its row with its column kept
/// within what is left of the line); on an empty line it does nothing.
#[verifier::spinoff_prover]
#[verifier::rlimit(50)]
pub proof fn law_delete_char_action(m: EditorModel)
    requires
        action_ok(m, Action::DeleteChar),
        (m.position_y as int) < m.document.rows.len(),
        byte_len(m.document.rows[m.position_y as int]) <= usize::MAX,
    ensures
        ({
            let r = after_action(m, Action::DeleteChar);
            let y = m.position_y as int;
            let line = m.document.rows[y];
            let k = char_index(line, m.position_x as int);
            &&& r.position_y == m.position_y
            &&& line.len() > 0 ==> r.position_x == (if m.position_x <= last_column(r) {
                m.position_x
            } else {
                last_column(r)
            })
            &&& r.document.rows.len() == m.document.rows.len()
            &&& forall|i: int| 0 <= i < m.document.rows.len() && i != y ==> r.document.rows[i] == m.document.rows[i]
            &&& line.len() > 0 ==> {
                &&& 0 <= k < line.len()
                &&& r.document.rows[y].len() == line.len() - 1
                &&& r.document.rows[y] == line.take(k) + line.skip(k + 1)
            }
            &&& line.len() == 0 ==> r == m
        }),
{
    let (x, y) = (m.position_x as usize, m.position_y as usize);
    let line = m.document.rows[y as int];
    let k = char_index(line, x as int);
    let r = after_action(m, Action::DeleteChar);
    if line.len() > 0 {
        assert(byte_len(line) > 0);
        assert(is_char_start(line, x as int, k));
        let r0 = EditorModel { document: after_delete_char(m.document, x, y), ..m };
        assert(r == clamp_x(r0)) by {
            reveal(after_action);
        }
        assert(line.remove(k) =~= line.take(k) + line.skip(k + 1));
    } else {
        assert(byte_len(line) == 0);
        assert(r == m) by {
            reveal(after_action);
        }
    }
}

/// `D` keeps only the chars before the cursor on its line (the other lines
/// stay); the cursor stays on its row, its column kept within what is left.
#[verifier::spinoff_prover]
#[verifier::rlimit(50)]
pub proof fn law_delete_to_line_end_action(m: EditorModel)
    requires
        action_ok(m, Action::DeleteToLineEnd),
        (m.position_y as int) < m.document.rows.len(),
    ensures
        ({
            let r = after_action(m, Action::DeleteToLineEnd);
            let y = m.position_y as int;
            let line = m.document.rows[y];
            &&& r.position_y == m.position_y
            &&& r.position_x == (if m.position_x <= last_column(r) { m.position_x } else { last_column(r) })
            &&& r.document.rows.len() == m.document.rows.len()
            &&& forall|i: int| 0 <= i < m.document.rows.len() && i != y ==> r.document.rows[i] == m.document.rows[i]
            &&& is_boundary(line, m.position_x as int) ==> r.document.rows[y] == line.take(
                char_index(line, m.position_x as int),
            )
        }),
{
    let (x, y) = (m.position_x as usize, m.position_y as usize);
    let r0 = EditorModel { document: after_truncate(m.document, x, y), ..m };
    assert(after_action(m, Action::DeleteToLineEnd) == clamp_x(r0)) by {
        reveal(after_action);
    }
}

/// A key in Command mode: a char is added to the command line, Backspace takes
/// the last one back (or leaves for Normal mode when there is none), Esc drops
/// the line and leaves for Normal mode, and Enter runs it and leaves for
/// Normal mode. The text and the cursor stay.
pub proof fn law_command_keys(m: EditorModel, key: KeyEvent)
    ensures
        ({
            let r = after_command_key(m, key);
            &&& key.code matches KeyCode::Char(c) ==> r.command_line == m.command_line.push(c) && r.mode == m.mode
            &&& key.code == KeyCode::Backspace && m.command_line.len() > 0 ==> r.command_line
                == m.command_line.take(m.command_line.len() - 1) && r.mode == m.mode
            &&& key.code == KeyCode::Backspace && m.command_line.len() == 0 ==> r.mode == Mode::Normal
            &&& key.code == KeyCode::Esc ==> r.command_line.len() == 0 && r.mode == Mode::Normal
                && !r.should_quit == !m.should_quit
            &&& key.code == KeyCode::Enter ==> r.mode == Mode::Normal && r.should_quit == after_command(
                m,
            ).should_quit && r.save_requested == after_command(m).save_requested
            &&& r.document == m.document && r.position_x == m.position_x && r.position_y == m.position_y
        }),
{
}

/// The number a string of decimal digits spells.
pub open spec fn digits_value(s: Seq<char>) -> int
    decreases s.len(),
{
    if s.len() == 0 {
        0
    } else {
        digits_value(s.drop_last()) * 10 + ((s.last() as u32) - 0x30)
    }
}

/// A decimal numeral: digits only, spelling `n`, with no leading zero.
pub proof fn law_decimal_spells_number(n: nat)
    ensures
        digits_value(decimal(n)) == n,
        decimal(n).len() >= 1,
        forall|i: int| 0 <= i < decimal(n).len() ==> 0x30 <= (#[trigger] decimal(n)[i] as u32) <= 0x39,
        n > 0 ==> decimal(n)[0] != '0',
    decreases n,
{
    lemma_digit_char(n % 10);
    if n >= 10 {
        law_decimal_spells_number(n / 10);
        let d = decimal(n / 10).push(digit_char(n % 10));
        assert(d.drop_last() =~= decimal(n / 10));
        assert(n == (n / 10) * 10 + n % 10) by (nonlinear_arith);
        assert(decimal(n) == d);
        assert(d.last() == digit_char(n % 10));
        assert(digits_value(d) == digits_value(d.drop_last()) * 10 + ((d.last() as u32) - 0x30));
        assert forall|i: int| 0 <= i < d.len() implies 0x30 <= (#[trigger] d[i] as u32) <= 0x39 by {
            if i < d.len() - 1 {
                assert(d[i] == decimal(n / 10)[i]);
            }
        }
    } else {
        assert(n % 10 == n);
        let d = seq![digit_char(n)];
        assert(d.drop_last() =~= Seq::<char>::empty());
        assert(digits_value(Seq::<char>::empty()) == 0);
        assert(digits_value(d) == digits_value(d.drop_last()) * 10 + ((d.last() as u32) - 0x30));
    }
}

/// The digit chars are the chars 0x30 to 0x39, in order.
proof fn lemma_digit_char(d: nat)
    requires
        d < 10,
    ensures
        digit_char(d) as u32 == 0x30 + d,
{
    assert('0' as u32 == 0x30 && '1' as u32 == 0x31 && '2' as u32 == 0x32 && '3' as u32 == 0x33 && '4' as u32
        == 0x34 && '5' as u32 == 0x35 && '6' as u32 == 0x36 && '7' as u32 == 0x37 && '8' as u32 == 0x38 && '9' as u32
        == 0x39);
}

/// The status line starts with the file name (`[No Name]` without one) and
/// ends with the cursor's line and column counted from 1, as `line:col`,
/// after the mode's name.
pub proof fn law_status_line_shows_position(m: EditorModel)
    ensures
        ({
            let s = status_text(m);
            let name = match m.document.filename {
                Some(n) => n,
                None => seq!['[', 'N', 'o', ' ', 'N', 'a', 'm', 'e', ']'],
            };
            let tail = seq![' ', '|', ' '] + mode_name(m.mode) + seq![' ', '|', ' '] + decimal(
                (m.position_y + 1) as nat,
            ) + seq![':'] + decimal((m.position_x + 1) as nat);
            &&& s.take(name.len() as int) == name
            &&& s.skip(s.len() - tail.len()) == tail
            &&& s.len() == name.len() + tail.len() + (if m.document.dirty { 4int } else { 0 })
        }),
{
    let s = status_text(m);
    let name = match m.document.filename {
        Some(n) => n,
        None => seq!['[', 'N', 'o', ' ', 'N', 'a', 'm', 'e', ']'],
    };
    let modified = if m.document.dirty { seq![' ', '[', '+', ']'] } else { Seq::<char>::empty() };
    let tail = seq![' ', '|', ' '] + mode_name(m.mode) + seq![' ', '|', ' '] + decimal((m.position_y + 1) as nat)
        + seq![':'] + decimal((m.position_x + 1) as nat);
    assert(s =~= name + modified + tail);
    assert(s.take(name.len() as int) =~= name);
    assert(s.skip(s.len() - tail.len()) =~= tail);
}

/// Typing in Insert mode on an existing line: a char goes in at the cursor
/// (between the chars before and after it) and the cursor moves past it; Enter
/// splits the line at the cursor, the part after it becoming the next line,
/// and puts the cursor at the start of that line; Esc returns to Normal mode
/// with the text and the cursor as they were. The other lines stay in order.
#[verifier::spinoff_prover]
#[verifier::rlimit(50)]
pub proof fn law_insert_mode_typing(m: EditorModel, key: KeyEvent)
    requires
        m.mode == Mode::Insert,
        insert_key_ok(m, key),
        (m.position_y as int) < m.document.rows.len(),
    ensures
        ({
            let r = after_insert_key(m, key);
            let rows = m.document.rows;
            let y = m.position_y as int;
            let line = rows[y];
            let k = char_index(line, m.position_x as int);
            &&& key.code matches KeyCode::Char(c) ==> {
                &&& r.document.rows == rows.update(y, line.take(k) + seq![c] + line.skip(k))
                &&& r.position_x == m.position_x + 1 && r.position_y == m.position_y
                &&& r.mode == Mode::Insert
            }
            &&& key.code == KeyCode::Enter ==> {
                &&& r.document.rows == rows.take(y) + seq![line.take(k), line.skip(k)] + rows.skip(y + 1)
                &&& r.position_x == 0 && r.position_y == m.position_y + 1
                &&& r.mode == Mode::Insert
            }
            &&& key.code == KeyCode::Esc ==> r.mode == Mode::Normal && r.document == m.document && r.position_x
                == m.position_x && r.position_y == m.position_y
        }),
{
    let rows = m.document.rows;
    let y = m.position_y as int;
    let line = rows[y];
    let k = char_index(line, m.position_x as int);
    if key.code is Char {
        assert(padded(rows) == rows);
        assert(is_char_start(line, m.position_x as int, k));
        let c = key.code->Char_0;
        assert(line.insert(k, c) =~= line.take(k) + seq![c] + line.skip(k));
    }
    if key.code == KeyCode::Enter {
        assert(is_char_start(line, m.position_x as int, k));
        assert(rows.update(y, line.take(k)).insert(y + 1, line.skip(k)) =~= rows.take(y) + seq![
            line.take(k),
            line.skip(k),
        ] + rows.skip(y + 1));
    }
}

/// A single `dw` (or `dW`) on a non-empty line never joins lines: only the
/// cursor's line changes, the number of lines stays, and the removed text goes
/// to the register charwise.
#[verifier::spinoff_prover]
#[verifier::rlimit(50)]
pub proof fn law_single_dw_stays_on_line(m: EditorModel, op: Operator, key: KeyEvent)
    requires
        key.code == KeyCode::Char('w') || key.code == KeyCode::Char('W'),
        operator_ok(m, key, 1),
        (m.position_y as int) < m.document.rows.len(),
        m.document.rows[m.position_y as int].len() > 0,
        byte_len(m.document.rows[m.position_y as int]) <= usize::MAX,
    ensures
        ({
            let r = after_operator(m, op, key, 1);
            let y = m.position_y as int;
            &&& r.document.rows.len() == m.document.rows.len()
            &&& forall|i: int| 0 <= i < m.document.rows.len() && i != y ==> r.document.rows[i] == m.document.rows[i]
            &&& r.register is Char
            &&& r.position_y == m.position_y
        }),
{
    reveal(after_operator);
    let line = m.document.rows[m.position_y as int];
    assert(byte_len(line) > 0);
}

/// An operator on a word-forward motion with a count of two or more, or on a
/// word-backward motion with any count of at least one, deletes exactly from
/// the cursor to where the motion, repeated that many times, lands (the char
/// there not included), and puts that text in the register.
pub proof fn law_word_operators_exclusive(m: EditorModel, op: Operator, key: KeyEvent, n: usize)
    requires
        ((key.code == KeyCode::Char('w') || key.code == KeyCode::Char('W')) && n >= 2) || ((key.code
            == KeyCode::Char('b') || key.code == KeyCode::Char('B')) && n >= 1),
        operator_ok(m, key, n),
    ensures
        ({
            let from = (m.position_x as usize, m.position_y as usize);
            let t = motion_repeat(m.document.rows, key.code, from, n as nat);
            let r = after_operator(m, op, key, n);
            &&& r.register == RegisterModel::Char(text_between(m.document.rows, from, t))
            &&& r.document == after_delete_range(m.document, from, t)
            &&& r.position_y == (if pos_le(from, t) { from.1 } else { t.1 }) as u16
        }),
{
    reveal(after_operator);
}

} // verus!
