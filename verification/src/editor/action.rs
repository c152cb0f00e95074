//! Editor actions: "what to do", decoupled from any key.
use vstd::prelude::*;

use super::{Editor, EditorModel, Mode, Operator, clamp_x, current_row_len_of};
use crate::document::edit::{after_delete_char, after_truncate, delete_char_ok, truncate_ok};
use crate::document::motion::{
    next_word_end_target, next_word_target, previous_word_target, start_search_in_bounds,
};
use crate::document::row_or_empty;
use crate::text::byte_len;

verus! {

/// Every editor action. The keymap maps a key to one of these, and all the
/// execution logic lives in `Editor::execute_action`.
#[derive(Clone, Copy, Debug, PartialEq, Eq, Structural)]
pub enum Action {
    // motions
    MoveLeft,
    MoveRight,
    MoveUp,
    MoveDown,
    /// `w` (`W` when true: big words)
    WordForward(bool),
    /// `b` (`B` when true)
    WordBackward(bool),
    /// `e` (`E` when true)
    WordEnd(bool),
    /// `gg`
    GotoTop,
    /// `G`
    GotoBottom,
    /// Ctrl+u
    HalfPageUp,
    /// Ctrl+d
    HalfPageDown,
    // modes
    /// `i`
    InsertBefore,
    /// `a`
    InsertAfter,
    /// `I`
    InsertLineStart,
    /// `A`
    InsertLineEnd,
    /// `:`
    EnterCommand,
    // editing
    /// `x`
    DeleteChar,
    /// `D`
    DeleteToLineEnd,
    /// `d` (starts operator-pending)
    StartOperator(Operator),
    // system
    Save,
    Quit,
}


/// The action can be carried out without a panic: `b` scans only within the
/// lines it visits, `a` has room to move right, and `x` and `D` start at a char
/// boundary of a non-empty line.
pub open spec fn action_ok(m: EditorModel, action: Action) -> bool {
    let (x, y) = (m.position_x as usize, m.position_y as usize);
    match action {
        Action::WordBackward(big) => start_search_in_bounds(m.document.rows, x as int, y as int, big),
        Action::InsertAfter => m.position_x < u16::MAX,
        Action::DeleteChar => (byte_len(row_or_empty(m.document.rows, y as int)) as usize) > 0
            ==> delete_char_ok(m.document, x, y),
        Action::DeleteToLineEnd => truncate_ok(m.document, x, y),
        _ => true,
    }
}

/// The cursor moved to `p` (truncated to `u16`).
pub open spec fn moved_to(m: EditorModel, p: (usize, usize)) -> EditorModel {
    EditorModel { position_x: p.0 as u16, position_y: p.1 as u16, ..m }
}

/// The editor after carrying out `action`.
#[verifier::opaque]
pub open spec fn after_action(m: EditorModel, action: Action) -> EditorModel {
    let (x, y) = (m.position_x as usize, m.position_y as usize);
    let rows = m.document.rows;
    match action {
        Action::MoveLeft => EditorModel { position_x: m.position_x.saturating_sub(1), ..m },
        Action::MoveRight => if current_row_len_of(m) > m.position_x.saturating_add(1) {
            EditorModel { position_x: m.position_x.saturating_add(1), ..m }
        } else {
            m
        },
        Action::MoveUp => clamp_x(EditorModel { position_y: m.position_y.saturating_sub(1), ..m }),
        Action::MoveDown => clamp_x(
            if (m.position_y as int) + 1 < rows.len() {
                EditorModel { position_y: m.position_y.saturating_add(1), ..m }
            } else {
                m
            },
        ),
        Action::WordForward(big) => moved_to(m, next_word_target(rows, x, y, big)),
        Action::WordBackward(big) => moved_to(m, previous_word_target(rows, x, y, big)),
        Action::WordEnd(big) => moved_to(m, next_word_end_target(rows, x, y, big)),
        Action::GotoTop => clamp_x(EditorModel { position_y: 0, ..m }),
        Action::GotoBottom => clamp_x(
            EditorModel { position_y: ((rows.len() as usize).saturating_sub(1)) as u16, ..m },
        ),
        Action::HalfPageUp => clamp_x(
            EditorModel { position_y: m.position_y.saturating_sub(m.screen_rows / 2), ..m },
        ),
        Action::HalfPageDown => {
            let max_y = (rows.len() as usize) as u16;
            let new_y = m.position_y.saturating_add(m.screen_rows / 2);
            clamp_x(
                EditorModel {
                    position_y: if new_y >= max_y { max_y.saturating_sub(1) } else { new_y },
                    ..m
                },
            )
        },
        Action::InsertBefore => EditorModel { mode: Mode::Insert, ..m },
        Action::InsertAfter => EditorModel { position_x: (m.position_x + 1) as u16, mode: Mode::Insert, ..m },
        Action::InsertLineStart => EditorModel { position_x: 0, mode: Mode::Insert, ..m },
        Action::InsertLineEnd => EditorModel { position_x: current_row_len_of(m), mode: Mode::Insert, ..m },
        Action::EnterCommand => EditorModel { mode: Mode::Command, ..m },
        Action::DeleteChar => if (byte_len(row_or_empty(rows, y as int)) as usize) > 0 {
            clamp_x(EditorModel { document: after_delete_char(m.document, x, y), ..m })
        } else {
            m
        },
        Action::DeleteToLineEnd => clamp_x(EditorModel { document: after_truncate(m.document, x, y), ..m }),
        Action::StartOperator(op) => EditorModel { pending_op: Some(op), ..m },
        Action::Save => EditorModel { save_requested: true, ..m },
        Action::Quit => EditorModel { should_quit: true, ..m },
    }
}

impl Editor {
    /// The single place where an action turns into an effect.
    pub fn execute_action(&mut self, action: Action)
        requires
            action_ok(old(self)@, action),
        ensures
            final(self)@ == after_action(old(self)@, action),
    {
        reveal(after_action);
        match action {
            Action::MoveLeft => self.position_x = self.position_x.saturating_sub(1),
            Action::MoveRight => {
                // do not move past the last character of the line
                if self.current_row_len() > self.position_x.saturating_add(1) {
                    self.position_x = self.position_x.saturating_add(1);
                }
            },
            Action::MoveUp => {
                self.position_y = self.position_y.saturating_sub(1);
                self.clamp_x_to_row();
            },
            Action::MoveDown => {
                // only move down while there is a next line
                if (self.position_y as usize) + 1 < self.document.rows_len() {
                    self.position_y = self.position_y.saturating_add(1);
                }
                self.clamp_x_to_row();
            },
            Action::WordForward(big) => {
                let (x, y) = self.document.next_word(
                    self.position_x as usize,
                    self.position_y as usize,
                    big,
                );
                self.position_x = x as u16;
                self.position_y = y as u16;
            },
            Action::WordBackward(big) => {
                let (x, y) = self.document.previous_word(
                    self.position_x as usize,
                    self.position_y as usize,
                    big,
                );
                self.position_x = x as u16;
                self.position_y = y as u16;
            },
            Action::WordEnd(big) => {
                let (x, y) = self.document.next_word_end(
                    self.position_x as usize,
                    self.position_y as usize,
                    big,
                );
                self.position_x = x as u16;
                self.position_y = y as u16;
            },
            Action::GotoTop => {
                self.position_y = 0;
                self.clamp_x_to_row();
            },
            Action::GotoBottom => {
                self.position_y = self.document.rows_len().saturating_sub(1) as u16;
                self.clamp_x_to_row();
            },
            Action::HalfPageUp => {
                let rows = self.screen_rows;
                self.position_y = self.position_y.saturating_sub(rows / 2);
                self.clamp_x_to_row();
            },
            Action::HalfPageDown => {
                let rows = self.screen_rows;
                let max_y = self.document.rows_len() as u16;
                let new_y = self.position_y.saturating_add(rows / 2);
                self.position_y = if new_y >= max_y {
                    max_y.saturating_sub(1)
                } else {
                    new_y
                };
                self.clamp_x_to_row();
            },
            Action::InsertBefore => self.mode = Mode::Insert,
            Action::InsertAfter => {
                self.position_x += 1;
                self.mode = Mode::Insert;
            },
            Action::InsertLineStart => {
                self.position_x = 0;
                self.mode = Mode::Insert;
            },
            Action::InsertLineEnd => {
                self.position_x = self.current_row_len();
                self.mode = Mode::Insert;
            },
            Action::EnterCommand => self.mode = Mode::Command,
            Action::DeleteChar => {
                // nothing to delete on an empty line
                if self.document.line_len(self.position_y as usize) > 0 {
                    self.document.delete_char(self.position_x as usize, self.position_y as usize);
                    self.clamp_x_to_row();
                }
            },
            Action::DeleteToLineEnd => {
                self.document.truncate(self.position_x as usize, self.position_y as usize);
                self.clamp_x_to_row();
            },
            // arm the operator; its target key is handled on the next press
            Action::StartOperator(op) => self.pending_op = Some(op),
            Action::Save => self.save_requested = true,
            Action::Quit => self.should_quit = true,
        }
    }

    /// Whether `execute_action(action)` may be called (its precondition).
    pub fn can_execute(&self, action: Action) -> (b: bool)
        ensures
            b == action_ok(self@, action),
    {
        let (x, y) = (self.position_x as usize, self.position_y as usize);
        match action {
            Action::WordBackward(big) => self.document.previous_word_in_bounds(x, y, big),
            Action::InsertAfter => self.position_x < u16::MAX,
            Action::DeleteChar => {
                if self.document.line_len(y) > 0 {
                    self.document.can_delete_char(x, y)
                } else {
                    true
                }
            },
            Action::DeleteToLineEnd => self.document.can_truncate(x, y),
            _ => true,
        }
    }
}

} // verus!
