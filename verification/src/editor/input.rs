//! How key presses change the editor, mode by mode.
use vstd::prelude::*;

use super::action::{Action, action_ok, after_action};
use super::keymap::{KeyBind, KeyCode, KeyEvent, bind_of};
use super::{Editor, EditorModel, Mode, Operator, Register, RegisterModel, clamp_x, clamp_y};
use crate::command_line::{Command, command_of};
use crate::document::DocumentModel;
use crate::document::edit::{
    after_delete_char, after_delete_range, after_insert_char, after_insert_newline, after_join_line,
    delete_char_ok, insert_char_ok, insert_newline_ok, pos_le, text_between,
};
use crate::document::motion::{
    next_word_end_target, next_word_target, previous_word_target, start_search_in_bounds,
};
use crate::document::row_or_empty;
use crate::text::{byte_len, join_lines};

verus! {

/// The editor after running the typed `:` command; the command line is cleared.
pub open spec fn after_command(m: EditorModel) -> EditorModel {
    let c = command_of(m.command_line);
    EditorModel {
        save_requested: m.save_requested || c == Command::Save || c == Command::SaveQuit,
        should_quit: m.should_quit || c == Command::Quit || c == Command::SaveQuit,
        command_line: Seq::empty(),
        ..m
    }
}

/// The editor after a key press in Command mode.
pub open spec fn after_command_key(m: EditorModel, key: KeyEvent) -> EditorModel {
    match key.code {
        KeyCode::Esc => EditorModel { command_line: Seq::empty(), mode: Mode::Normal, ..m },
        KeyCode::Backspace => if m.command_line.len() == 0 {
            EditorModel { mode: Mode::Normal, ..m }
        } else {
            EditorModel { command_line: m.command_line.drop_last(), ..m }
        },
        KeyCode::Enter => EditorModel { mode: Mode::Normal, ..after_command(m) },
        KeyCode::Char(c) => EditorModel { command_line: m.command_line.push(c), ..m },
        KeyCode::Other => m,
    }
}

/// A key press in Insert mode can be handled without a panic: the edit starts
/// at a char boundary and the cursor has room to move.
pub open spec fn insert_key_ok(m: EditorModel, key: KeyEvent) -> bool {
    let (x, y) = (m.position_x as usize, m.position_y as usize);
    match key.code {
        KeyCode::Backspace => m.position_x > 0 ==> delete_char_ok(m.document, (x - 1) as usize, y),
        KeyCode::Enter => insert_newline_ok(m.document, x, y) && m.position_y < u16::MAX,
        KeyCode::Char(_) => insert_char_ok(m.document, x, y) && m.position_x < u16::MAX,
        _ => true,
    }
}

/// The editor after a key press in Insert mode.
pub open spec fn after_insert_key(m: EditorModel, key: KeyEvent) -> EditorModel {
    let (x, y) = (m.position_x as usize, m.position_y as usize);
    match key.code {
        KeyCode::Esc => EditorModel { mode: Mode::Normal, ..m },
        KeyCode::Backspace => if m.position_x > 0 {
            EditorModel {
                document: after_delete_char(m.document, (x - 1) as usize, y),
                position_x: (m.position_x - 1) as u16,
                ..m
            }
        } else if m.position_y > 0 {
            EditorModel {
                document: after_join_line(m.document, y),
                position_y: (m.position_y - 1) as u16,
                position_x: ((byte_len(row_or_empty(m.document.rows, y - 1)) as usize) as u16),
                ..m
            }
        } else {
            m
        },
        KeyCode::Enter => EditorModel {
            document: after_insert_newline(m.document, x, y),
            position_y: (m.position_y + 1) as u16,
            position_x: 0,
            ..m
        },
        KeyCode::Char(c) => EditorModel {
            document: after_insert_char(m.document, x, y, c),
            position_x: (m.position_x + 1) as u16,
            ..m
        },
        KeyCode::Other => m,
    }
}

/// A key that names a word motion: `w`, `W`, `b`, `B`, `e` or `E`.
pub open spec fn is_motion_key(code: KeyCode) -> bool {
    match code {
        KeyCode::Char(c) => c == 'w' || c == 'W' || c == 'b' || c == 'B' || c == 'e' || c == 'E',
        _ => false,
    }
}

/// A key that names a word-end motion (`e`, `E`): its target char is included.
pub open spec fn is_end_key(code: KeyCode) -> bool {
    code == KeyCode::Char('e') || code == KeyCode::Char('E')
}

/// A key that names a word-forward motion (`w`, `W`).
pub open spec fn is_forward_key(code: KeyCode) -> bool {
    code == KeyCode::Char('w') || code == KeyCode::Char('W')
}

/// Where one step of the motion named by `code` goes from `p` (`p` itself for
/// a key that names none).
#[verifier::opaque]
pub open spec fn motion_step(rows: Seq<Seq<char>>, code: KeyCode, p: (usize, usize)) -> (usize, usize) {
    match code {
        KeyCode::Char('w') => next_word_target(rows, p.0, p.1, false),
        KeyCode::Char('W') => next_word_target(rows, p.0, p.1, true),
        KeyCode::Char('b') => previous_word_target(rows, p.0, p.1, false),
        KeyCode::Char('B') => previous_word_target(rows, p.0, p.1, true),
        KeyCode::Char('e') => next_word_end_target(rows, p.0, p.1, false),
        KeyCode::Char('E') => next_word_end_target(rows, p.0, p.1, true),
        _ => p,
    }
}

/// One step of the motion from `p` runs without a panic.
#[verifier::opaque]
pub open spec fn motion_step_ok(rows: Seq<Seq<char>>, code: KeyCode, p: (usize, usize)) -> bool {
    match code {
        KeyCode::Char('b') => start_search_in_bounds(rows, p.0 as int, p.1 as int, false),
        KeyCode::Char('B') => start_search_in_bounds(rows, p.0 as int, p.1 as int, true),
        KeyCode::Char('e') => p.0 < usize::MAX,
        KeyCode::Char('E') => p.0 < usize::MAX,
        _ => true,
    }
}

/// Where `k` steps of the motion go from `p`.
pub open spec fn motion_repeat(rows: Seq<Seq<char>>, code: KeyCode, p: (usize, usize), k: nat) -> (usize, usize)
    decreases k,
{
    if k == 0 {
        p
    } else {
        motion_step(rows, code, motion_repeat(rows, code, p, (k - 1) as nat))
    }
}

/// `k` steps of the motion from `p` run without a panic.
pub open spec fn motion_repeat_ok(rows: Seq<Seq<char>>, code: KeyCode, p: (usize, usize), k: nat) -> bool
    decreases k,
{
    k == 0 || (motion_repeat_ok(rows, code, p, (k - 1) as nat) && motion_step_ok(
        rows,
        code,
        motion_repeat(rows, code, p, (k - 1) as nat),
    ))
}

/// The first steps of a motion that runs without a panic also do.
pub proof fn lemma_motion_repeat_ok_prefix(rows: Seq<Seq<char>>, code: KeyCode, p: (usize, usize), i: nat, n: nat)
    requires
        i <= n,
        motion_repeat_ok(rows, code, p, n),
    ensures
        motion_repeat_ok(rows, code, p, i),
    decreases n - i,
{
    if i < n {
        lemma_motion_repeat_ok_prefix(rows, code, p, i, (n - 1) as nat);
    }
}

/// The number of lines `dd` with count `n` removes from line `y` on, as an end line.
pub open spec fn line_op_end(m: EditorModel, n: usize) -> int {
    let y = m.position_y as int;
    if y + n < m.document.rows.len() {
        y + n
    } else {
        m.document.rows.len() as int
    }
}

/// An operator with count `n` applied to `key` runs without a panic: for `dd`
/// the end line fits in a `usize`; for a motion, each of its `n` steps runs
/// without a panic and the end of an `e` motion is not the last machine column.
pub open spec fn operator_ok(m: EditorModel, key: KeyEvent, n: usize) -> bool {
    let p = (m.position_x as usize, m.position_y as usize);
    let rows = m.document.rows;
    if key.code == KeyCode::Char('d') {
        m.position_y + n <= usize::MAX
    } else if n > 0 && !is_motion_key(key.code) {
        true
    } else {
        &&& motion_repeat_ok(rows, key.code, p, n as nat)
        &&& (n > 0 && is_end_key(key.code)) ==> motion_repeat(rows, key.code, p, n as nat).0 < usize::MAX
    }
}

/// The editor after applying `op` with count `n` to the motion named by `key`:
/// `dd` removes `n` lines from the cursor's (fewer at the end of the document)
/// into the register, linewise; a word motion, repeated `n` times, deletes from
/// the cursor to its target (the target char included for `e`; for a single
/// `w`, not past the end of the line) into the register, charwise; any other
/// key cancels.
#[verifier::opaque]
pub open spec fn after_operator(m: EditorModel, op: Operator, key: KeyEvent, n: usize) -> EditorModel {
    let (x, y) = (m.position_x as usize, m.position_y as usize);
    let rows = m.document.rows;
    if key.code == KeyCode::Char('d') {
        let last = line_op_end(m, n);
        let text = if (y as int) < last { join_lines(rows.subrange(y as int, last)) } else { Seq::empty() };
        let doc = if (y as int) < last {
            DocumentModel { rows: rows.take(y as int) + rows.skip(last), dirty: true, ..m.document }
        } else {
            m.document
        };
        clamp_x(clamp_y(EditorModel { document: doc, register: RegisterModel::Line(text), ..m }))
    } else if n > 0 && !is_motion_key(key.code) {
        m
    } else {
        let t = motion_repeat(rows, key.code, (x, y), n as nat);
        let t1 = if n > 0 && is_end_key(key.code) { ((t.0 + 1) as usize, t.1) } else { t };
        let t2 = if n == 1 && is_forward_key(key.code) { target_on_line(m, t1) } else { t1 };
        let from = (x, y);
        let start = if pos_le(from, t2) { from } else { t2 };
        clamp_x(
            EditorModel {
                document: after_delete_range(m.document, from, t2),
                register: RegisterModel::Char(text_between(rows, from, t2)),
                position_x: start.0 as u16,
                position_y: start.1 as u16,
                ..m
            },
        )
    }
}

/// The editor after carrying out `action` `k` times.
pub open spec fn repeat_action(m: EditorModel, action: Action, k: nat) -> EditorModel
    decreases k,
{
    if k == 0 {
        m
    } else {
        after_action(repeat_action(m, action, (k - 1) as nat), action)
    }
}

/// Carrying out `action` `k` times runs without a panic.
pub open spec fn repeat_ok(m: EditorModel, action: Action, k: nat) -> bool
    decreases k,
{
    k == 0 || (repeat_ok(m, action, (k - 1) as nat) && action_ok(repeat_action(m, action, (k - 1) as nat), action))
}

/// The first repetitions of an action that runs without a panic also do.
pub proof fn lemma_repeat_ok_prefix(m: EditorModel, action: Action, i: nat, n: nat)
    requires
        i <= n,
        repeat_ok(m, action, n),
    ensures
        repeat_ok(m, action, i),
    decreases n - i,
{
    if i < n {
        lemma_repeat_ok_prefix(m, action, i, (n - 1) as nat);
    }
}

/// The digit a key types, if it is one.
pub open spec fn digit_of(code: KeyCode) -> Option<nat> {
    match code {
        KeyCode::Char(c) => if 0x30 <= (c as u32) <= 0x39 { Some(((c as u32) - 0x30) as nat) } else { None },
        _ => None,
    }
}

/// The key adds a digit to the count: a digit, but not a `0` that would start one.
pub open spec fn extends_count(m: EditorModel, key: KeyEvent) -> bool {
    digit_of(key.code) matches Some(d) && !(d == 0 && m.count is None)
}

/// The count after typing digit `d`.
pub open spec fn count_with_digit(m: EditorModel, d: nat) -> int {
    (match m.count { Some(c) => c as int, None => 0 }) * 10 + d
}

/// The count to use: the one typed, or 1.
pub open spec fn count_or_one(m: EditorModel) -> usize {
    match m.count {
        Some(c) => c,
        None => 1,
    }
}

/// The editor with the count and the `g` prefix dropped, before a keymap action.
pub open spec fn before_action(m: EditorModel) -> EditorModel {
    EditorModel { awaiting_g: false, count: None, ..m }
}

/// A key press in Normal mode can be handled without a panic.
pub open spec fn normal_key_ok(m: EditorModel, key: KeyEvent) -> bool {
    match m.pending_op {
        Some(_) => operator_ok(m, key, count_or_one(m)),
        None => {
            if m.awaiting_g {
                true
            } else if extends_count(m, key) {
                count_with_digit(m, digit_of(key.code)->0) <= usize::MAX
            } else if key.code == KeyCode::Char('g') && !key.modifiers.control {
                true
            } else if m.keymap.contains_key(bind_of(key)) {
                match m.keymap[bind_of(key)] {
                    Action::StartOperator(_) => true,
                    action => repeat_ok(before_action(m), action, count_or_one(m) as nat),
                }
            } else {
                true
            }
        },
    }
}

/// The editor after a key press in Normal mode: a pending operator takes the
/// key as its motion, with the count; after `g`, a second `g` goes to the top;
/// a digit adds to the count (a `0` starting one is not a digit but a key);
/// `g` starts the `gg` sequence; any other key runs the action the keymap binds
/// to it, as many times as the count says (an operator instead waits for its
/// motion, keeping the count).
pub open spec fn after_normal_key(m: EditorModel, key: KeyEvent) -> EditorModel {
    let m1 = EditorModel { awaiting_g: false, ..m };
    match m.pending_op {
        Some(op) => after_operator(EditorModel { pending_op: None, count: None, ..m1 }, op, key, count_or_one(m)),
        None => {
            if m.awaiting_g {
                let m2 = if key.code == KeyCode::Char('g') { after_action(m1, Action::GotoTop) } else { m1 };
                EditorModel { count: None, ..m2 }
            } else if extends_count(m, key) {
                EditorModel { count: Some(count_with_digit(m, digit_of(key.code)->0) as usize), ..m1 }
            } else if key.code == KeyCode::Char('g') && !key.modifiers.control {
                EditorModel { awaiting_g: true, ..m }
            } else if m.keymap.contains_key(bind_of(key)) {
                match m.keymap[bind_of(key)] {
                    Action::StartOperator(op) => EditorModel {
                        pending_op: Some(op),
                        count: Some(count_or_one(m)),
                        ..before_action(m)
                    },
                    action => repeat_action(before_action(m), action, count_or_one(m) as nat),
                }
            } else {
                before_action(m)
            }
        },
    }
}

/// A `dw` target kept on the cursor's line: one on another line becomes the
/// end of the cursor's line, unless that line is empty.
pub open spec fn target_on_line(m: EditorModel, target: (usize, usize)) -> (usize, usize) {
    let y = m.position_y as usize;
    let len = byte_len(row_or_empty(m.document.rows, y as int)) as usize;
    if target.1 != y && len > 0 {
        (len, y)
    } else {
        target
    }
}

/// A key press can be handled without a panic, in the current mode.
pub open spec fn key_ok(m: EditorModel, key: KeyEvent) -> bool {
    match m.mode {
        Mode::Normal => normal_key_ok(m, key),
        Mode::Insert => insert_key_ok(m, key),
        Mode::Command => true,
    }
}

/// The editor after a key press, in the current mode.
pub open spec fn after_key(m: EditorModel, key: KeyEvent) -> EditorModel {
    match m.mode {
        Mode::Normal => after_normal_key(m, key),
        Mode::Insert => after_insert_key(m, key),
        Mode::Command => after_command_key(m, key),
    }
}

impl Editor {
    /// Route a key press to the handler for the current mode.
    pub fn dispatcher(&mut self, key: KeyEvent)
        requires
            key_ok(old(self)@, key),
        ensures
            final(self)@ == after_key(old(self)@, key),
    {
        match self.mode {
            Mode::Normal => self.handler_normal(key),
            Mode::Insert => self.handler_insert(key),
            Mode::Command => self.handler_command(key),
        }
    }

    /// Handle a key press if it can be handled without a panic: then the
    /// editor changes as `dispatcher` would change it; otherwise it stays as it is.
    pub fn handle_key(&mut self, key: KeyEvent) -> (ok: bool)
        ensures
            ok == key_ok(old(self)@, key),
            ok ==> final(self)@ == after_key(old(self)@, key),
            !ok ==> final(self)@ == old(self)@,
    {
        if self.can_handle(key) {
            self.dispatcher(key);
            true
        } else {
            false
        }
    }

    /// Whether `dispatcher(key)` may be called (its precondition).
    pub fn can_handle(&self, key: KeyEvent) -> (b: bool)
        ensures
            b == key_ok(self@, key),
    {
        let (x, y) = (self.position_x as usize, self.position_y as usize);
        match self.mode {
            Mode::Normal => {
                let n = match self.count { Some(c) => c, None => 1 };
                match self.pending_op {
                    Some(_) => self.can_apply_operator(key, n),
                    None => {
                        if self.awaiting_g {
                            true
                        } else if let Some(d) = Self::count_digit(self.count, key) {
                            let c: u128 = match self.count { Some(c) => c as u128, None => 0 };
                            c * 10 + d as u128 <= usize::MAX as u128
                        } else if key.code == KeyCode::Char('g') && !key.modifiers.control {
                            true
                        } else {
                            let bind = KeyBind::from_event(key);
                            match self.keymap.lookup_normal(&bind) {
                                Some(Action::StartOperator(_)) => true,
                                Some(action) => self.can_repeat(action, n),
                                None => true,
                            }
                        }
                    },
                }
            },
            Mode::Insert => match key.code {
                KeyCode::Backspace => {
                    if self.position_x > 0 {
                        self.document.can_delete_char(x - 1, y)
                    } else {
                        true
                    }
                },
                KeyCode::Enter => self.document.can_insert_newline(x, y) && self.position_y < u16::MAX,
                KeyCode::Char(_) => self.document.can_insert_char(x, y) && self.position_x < u16::MAX,
                _ => true,
            },
            Mode::Command => true,
        }
    }

    /// The digit the key adds to the count, if it adds one.
    fn count_digit(count: Option<usize>, key: KeyEvent) -> (r: Option<u32>)
        ensures
            r matches Some(d) ==> digit_of(key.code) == Some(d as nat) && !(d == 0 && count is None),
            r is None ==> !(digit_of(key.code) matches Some(d) && !(d == 0 && count is None)),
    {
        match key.code {
            KeyCode::Char(c) => {
                let u = c as u32;
                if 0x30 <= u && u <= 0x39 && !(u == 0x30 && count.is_none()) {
                    Some(u - 0x30)
                } else {
                    None
                }
            },
            _ => None,
        }
    }

    /// Whether carrying out `action` `n` times (after dropping the count and
    /// the `g` prefix) runs without a panic; tried out on a copy.
    fn can_repeat(&self, action: Action, n: usize) -> (b: bool)
        ensures
            b == repeat_ok(before_action(self@), action, n as nat),
    {
        let mut sim = self.snapshot();
        sim.awaiting_g = false;
        sim.count = None;
        let ghost m = before_action(self@);
        proof {
            assert(sim@ == m);
        }
        let mut i: usize = 0;
        while i < n
            invariant
                i <= n,
                m == before_action(self@),
                sim@ == repeat_action(m, action, i as nat),
                repeat_ok(m, action, i as nat),
            decreases n - i,
        {
            if !sim.can_execute(action) {
                proof {
                    if repeat_ok(m, action, n as nat) {
                        lemma_repeat_ok_prefix(m, action, (i + 1) as nat, n as nat);
                        assert(repeat_ok(m, action, (i + 1) as nat));
                        assert(((i + 1) as nat - 1) as nat == i as nat);
                        assert(action_ok(repeat_action(m, action, i as nat), action));
                    }
                }
                return false;
            }
            sim.execute_action(action);
            proof {
                assert(((i + 1) as nat - 1) as nat == i as nat);
                assert(repeat_ok(m, action, (i + 1) as nat));
            }
            i += 1;
        }
        true
    }

    /// Whether applying an operator with count `n` to `key` runs without a panic.
    #[verifier::spinoff_prover]
    #[verifier::rlimit(40)]
    fn can_apply_operator(&self, key: KeyEvent, n: usize) -> (b: bool)
        ensures
            b == operator_ok(self@, key, n),
    {
        let (x, y) = (self.position_x as usize, self.position_y as usize);
        if key.code == KeyCode::Char('d') {
            return n <= usize::MAX - y;
        }
        let motion = match key.code {
            KeyCode::Char(c) => c == 'w' || c == 'W' || c == 'b' || c == 'B' || c == 'e' || c == 'E',
            _ => false,
        };
        assert(motion == is_motion_key(key.code));
        if n > 0 && !motion {
            return true;
        }
        let ghost rows = self@.document.rows;
        let mut t = (x, y);
        let mut i: usize = 0;
        while i < n
            invariant
                i <= n,
                rows == self@.document.rows,
                x == self.position_x as usize,
                y == self.position_y as usize,
                key.code != KeyCode::Char('d'),
                !(n > 0 && !is_motion_key(key.code)),
                t == motion_repeat(rows, key.code, (x, y), i as nat),
                motion_repeat_ok(rows, key.code, (x, y), i as nat),
            decreases n - i,
        {
            let ok = self.can_step(key.code, t);
            proof {
                assert(((i + 1) as nat - 1) as nat == i as nat);
            }
            if !ok {
                proof {
                    if motion_repeat_ok(rows, key.code, (x, y), n as nat) {
                        lemma_motion_repeat_ok_prefix(rows, key.code, (x, y), (i + 1) as nat, n as nat);
                        assert(motion_repeat_ok(rows, key.code, (x, y), (i + 1) as nat));
                        assert(motion_step_ok(rows, key.code, t));
                    }
                }
                return false;
            }
            t = self.motion_step(key.code, t);
            proof {
                assert(motion_repeat_ok(rows, key.code, (x, y), (i + 1) as nat));
            }
            i += 1;
        }
        let end = key.code == KeyCode::Char('e') || key.code == KeyCode::Char('E');
        !(n > 0 && end) || t.0 < usize::MAX
    }

    /// Whether one step of the motion named by `code` from `p` runs without a panic.
    fn can_step(&self, code: KeyCode, p: (usize, usize)) -> (ok: bool)
        ensures
            ok == motion_step_ok(self@.document.rows, code, p),
    {
        reveal(motion_step_ok);
        match code {
            KeyCode::Char('b') => self.document.previous_word_in_bounds(p.0, p.1, false),
            KeyCode::Char('B') => self.document.previous_word_in_bounds(p.0, p.1, true),
            KeyCode::Char('e') => p.0 < usize::MAX,
            KeyCode::Char('E') => p.0 < usize::MAX,
            _ => true,
        }
    }

    /// One step of the motion named by `code` from `p`.
    fn motion_step(&self, code: KeyCode, p: (usize, usize)) -> (r: (usize, usize))
        requires
            motion_step_ok(self@.document.rows, code, p),
        ensures
            r == motion_step(self@.document.rows, code, p),
    {
        reveal(motion_step);
        reveal(motion_step_ok);
        match code {
            KeyCode::Char('w') => self.document.next_word(p.0, p.1, false),
            KeyCode::Char('W') => self.document.next_word(p.0, p.1, true),
            KeyCode::Char('b') => self.document.previous_word(p.0, p.1, false),
            KeyCode::Char('B') => self.document.previous_word(p.0, p.1, true),
            KeyCode::Char('e') => self.document.next_word_end(p.0, p.1, false),
            KeyCode::Char('E') => self.document.next_word_end(p.0, p.1, true),
            _ => p,
        }
    }

    /// Run the typed `:` command (`:w`, `:q`, `:wq`), then clear the command line.
    pub fn execute_command(&mut self)
        ensures
            final(self)@ == after_command(old(self)@),
    {
        match self.command_line.parse() {
            Command::Save => {
                self.save_requested = true;
            },
            Command::Quit => self.should_quit = true,
            Command::SaveQuit => {
                self.save_requested = true;
                self.should_quit = true;
            },
            Command::Unknown => {},
        }
        self.command_line.clear();
    }

    /// Handle a key in Command mode (typing after `:`).
    pub fn handler_command(&mut self, key: KeyEvent)
        ensures
            final(self)@ == after_command_key(old(self)@, key),
    {
        match key.code {
            KeyCode::Esc => {
                self.command_line.clear();
                self.mode = Mode::Normal;
            },
            KeyCode::Backspace => {
                if self.command_line.is_empty() {
                    self.mode = Mode::Normal;
                } else {
                    self.command_line.pop();
                }
            },
            KeyCode::Enter => {
                self.execute_command();
                self.mode = Mode::Normal;
            },
            KeyCode::Char(c) => {
                self.command_line.push(c);
            },
            _ => {},
        }
    }

    /// Handle a key in Insert mode (text input, Backspace, Enter, Esc).
    pub fn handler_insert(&mut self, key: KeyEvent)
        requires
            insert_key_ok(old(self)@, key),
        ensures
            final(self)@ == after_insert_key(old(self)@, key),
    {
        match key.code {
            // Switch mode to Normal
            KeyCode::Esc => self.mode = Mode::Normal,
            KeyCode::Backspace => {
                if self.position_x > 0 {
                    self.document.delete_char((self.position_x - 1) as usize, self.position_y as usize);
                    self.position_x -= 1;
                } else if self.position_y > 0 {
                    let prev_len = self.document.line_len((self.position_y - 1) as usize) as u16;
                    self.document.join_line(self.position_y as usize);
                    self.position_y -= 1;
                    self.position_x = prev_len;
                }
            },
            KeyCode::Enter => {
                self.document.insert_newline(self.position_x as usize, self.position_y as usize);
                self.position_y += 1;
                self.position_x = 0;
            },
            KeyCode::Char(c) => {
                self.document.insert_char(self.position_x as usize, self.position_y as usize, c);
                self.position_x += 1;
            },
            _ => {},
        }
    }

    /// For word-forward operators (`dw`): keep the deleted range inside the
    /// current line, unless the line is empty.
    fn clamp_target_to_line(&self, target: (usize, usize)) -> (r: (usize, usize))
        ensures
            r == target_on_line(self@, target),
    {
        let y = self.position_y as usize;
        let len = self.document.line_len(y);
        if target.1 != y && len > 0 {
            (len, y)
        } else {
            target
        }
    }

    /// Apply an operator with count `n` to the motion given by `key`: `dd`
    /// removes `n` lines, `dw`/`db`/`de` (and big variants) delete up to the
    /// motion's target repeated `n` times; the removed text goes to the register.
    pub fn apply_operator(&mut self, op: Operator, key: KeyEvent, n: usize)
        requires
            operator_ok(old(self)@, key, n),
        ensures
            final(self)@ == after_operator(old(self)@, op, key, n),
    {
        reveal(after_operator);
        let x = self.position_x as usize;
        let y = self.position_y as usize;
        let ghost m = self@;
        let ghost rows = self@.document.rows;

        // doubled operator -> linewise over `n` lines (dd)
        if key.code == KeyCode::Char('d') {
            let len = self.document.rows_len();
            let last = if y + n < len { y + n } else { len };
            let text = if y < last { self.document.lines_text(y, last) } else { String::new() };
            self.register = Register::Line(text);
            let ghost m1 = self@;
            let mut k = y;
            while k < last
                invariant
                    y <= k <= last || (k == y && last < y),
                    last <= rows.len(),
                    rows == m.document.rows,
                    self@ == (EditorModel {
                        document: if k == y { m.document } else {
                            DocumentModel { rows: rows.take(y as int) + rows.skip(k as int), dirty: true, ..m.document }
                        },
                        ..m1
                    }),
                    m1 == (EditorModel { register: m1.register, ..m }),
                decreases last - k,
            {
                self.document.remove_line(y);
                k += 1;
                proof {
                    assert(self@.document.rows =~= rows.take(y as int) + rows.skip(k as int));
                }
            }
            proof {
                if y < last {
                    assert(k == last);
                }
            }
            self.clamp_y_to_doc();
            self.clamp_x_to_row();
            return;
        }

        let motion = match key.code {
            KeyCode::Char(c) => c == 'w' || c == 'W' || c == 'b' || c == 'B' || c == 'e' || c == 'E',
            _ => false,
        };
        if n > 0 && !motion {
            return;  // not a motion -> cancel the operator
        }

        // resolve the target by applying the motion `n` times
        let mut t = (x, y);
        let mut i: usize = 0;
        while i < n
            invariant
                i <= n,
                rows == self@.document.rows,
                self@ == m,
                t == motion_repeat(rows, key.code, (x, y), i as nat),
                motion_repeat_ok(rows, key.code, (x, y), n as nat),
            decreases n - i,
        {
            proof {
                lemma_motion_repeat_ok_prefix(rows, key.code, (x, y), (i + 1) as nat, n as nat);
            }
            t = self.motion_step(key.code, t);
            i += 1;
        }

        let mut target = t;
        if n > 0 && (key.code == KeyCode::Char('e') || key.code == KeyCode::Char('E')) {
            target = (target.0 + 1, target.1);
        }
        // single `dw` must not join lines; for counts allow crossing
        if n == 1 && (key.code == KeyCode::Char('w') || key.code == KeyCode::Char('W')) {
            target = self.clamp_target_to_line(target);
        }
        self.register = Register::Char(self.document.text_in_range((x, y), target));
        let (nx, ny) = self.document.delete_range((x, y), target);
        self.position_x = nx as u16;
        self.position_y = ny as u16;
        self.clamp_x_to_row();
    }

    /// Handle a key in Normal mode: a pending operator and `gg` first, then a
    /// count prefix, then a single-key lookup in the keymap.
    #[verifier::spinoff_prover]
    pub fn handler_normal(&mut self, key: KeyEvent)
        requires
            normal_key_ok(old(self)@, key),
        ensures
            final(self)@ == after_normal_key(old(self)@, key),
    {
        let was_awaiting_g = self.awaiting_g;
        self.awaiting_g = false;

        // 1) waiting for an operator target (dw, dd, 2dw, ...)
        if let Some(op) = self.pending_op {
            self.pending_op = None;
            let n = match self.count { Some(c) => c, None => 1 };
            self.count = None;
            self.apply_operator(op, key, n);
            return;
        }

        // 2) the gg sequence
        if was_awaiting_g {
            if key.code == KeyCode::Char('g') {
                self.execute_action(Action::GotoTop);
            }
            self.count = None;
            return;
        }

        // 3) accumulate a numeric count prefix (`0` alone is a motion, not a count)
        if let Some(d) = Self::count_digit(self.count, key) {
            let c = match self.count { Some(c) => c, None => 0 };
            self.count = Some(c * 10 + d as usize);
            return;
        }

        if key.code == KeyCode::Char('g') && !key.modifiers.control {
            self.awaiting_g = true;
            return;
        }

        // 4) single key via the keymap, repeated `count` times
        let n = match self.count { Some(c) => c, None => 1 };
        self.count = None;
        let bind = KeyBind::from_event(key);
        if let Some(action) = self.keymap.lookup_normal(&bind) {
            // an operator carries the count forward to its motion (e.g. 3dw)
            if let Action::StartOperator(op) = action {
                self.pending_op = Some(op);
                self.count = Some(n);
            } else {
                let ghost m = self@;
                let mut i: usize = 0;
                while i < n
                    invariant
                        i <= n,
                        self@ == repeat_action(m, action, i as nat),
                        repeat_ok(m, action, n as nat),
                    decreases n - i,
                {
                    proof {
                        lemma_repeat_ok_prefix(m, action, (i + 1) as nat, n as nat);
                    }
                    self.execute_action(action);
                    i += 1;
                }
            }
        }
    }
}

} // verus!
