//! The editor: the document, cursor/viewport state, mode and keymap, and how a
//! key press changes them. Reading keys, querying the terminal size, drawing
//! and writing files happen outside: the editor takes the key presses and the
//! screen size as values, and asks for a save by raising a flag.
use vstd::prelude::*;

pub mod action;
pub mod input;
pub mod keymap;

use crate::command_line::CommandLine;
use crate::document::{Document, DocumentModel, row_or_empty};
use crate::text::{byte_len, chars_of, string_of_range};
use keymap::{KeyBind, Keymap};
use action::Action;

verus! {

/// Current editing mode.
#[derive(Clone, Debug, Copy, PartialEq, Eq, Structural)]
pub enum Mode {
    Normal,
    Insert,
    Command,
}

/// A pending operator waiting for a motion target (e.g. `d` in `dw`).
#[derive(Clone, Debug, Copy, PartialEq, Eq, Structural)]
pub enum Operator {
    Delete,
}

/// Text removed by an operator: charwise (`dw`, `de`, `db`) or linewise (`dd`).
#[derive(Clone, Debug, PartialEq, Eq)]
pub enum Register {
    Char(String),
    Line(String),
}

/// What a register holds, as mathematical values.
pub enum RegisterModel {
    Char(Seq<char>),
    Line(Seq<char>),
}

impl View for Register {
    type V = RegisterModel;

    open spec fn view(&self) -> RegisterModel {
        match self {
            Register::Char(s) => RegisterModel::Char(s@),
            Register::Line(s) => RegisterModel::Line(s@),
        }
    }
}

impl Register {
    /// A copy of the register.
    pub fn snapshot(&self) -> (r: Self)
        ensures
            r@ == self@,
    {
        match self {
            Register::Char(s) => Register::Char(s.clone()),
            Register::Line(s) => Register::Line(s.clone()),
        }
    }
}

/// What an editor holds, as mathematical values.
pub struct EditorModel {
    pub should_quit: bool,
    pub awaiting_g: bool,
    pub pending_op: Option<Operator>,
    /// The count typed before a command (`3` in `3j`), if any.
    pub count: Option<usize>,
    /// The text the last operator removed.
    pub register: RegisterModel,
    pub document: DocumentModel,
    pub mode: Mode,
    pub position_x: u16,
    pub position_y: u16,
    pub offset_x: u16,
    pub offset_y: u16,
    pub command_line: Seq<char>,
    pub keymap: Map<KeyBind, Action>,
    /// Terminal width and height, as last reported.
    pub screen_cols: u16,
    pub screen_rows: u16,
    /// A save of the document was asked for and not yet carried out.
    pub save_requested: bool,
}

/// The editor: owns the document, cursor/viewport state, mode and keymap.
pub struct Editor {
    should_quit: bool,
    awaiting_g: bool,
    pending_op: Option<Operator>,
    count: Option<usize>,
    register: Register,
    document: Document,
    mode: Mode,
    position_x: u16,
    position_y: u16,
    offset_x: u16,
    offset_y: u16,
    command_line: CommandLine,
    keymap: Keymap,
    screen_cols: u16,
    screen_rows: u16,
    save_requested: bool,
}

impl View for Editor {
    type V = EditorModel;

    closed spec fn view(&self) -> EditorModel {
        EditorModel {
            should_quit: self.should_quit,
            awaiting_g: self.awaiting_g,
            pending_op: self.pending_op,
            count: self.count,
            register: self.register@,
            document: self.document@,
            mode: self.mode,
            position_x: self.position_x,
            position_y: self.position_y,
            offset_x: self.offset_x,
            offset_y: self.offset_y,
            command_line: self.command_line@,
            keymap: self.keymap@,
            screen_cols: self.screen_cols,
            screen_rows: self.screen_rows,
            save_requested: self.save_requested,
        }
    }
}

/// Length in bytes of the cursor's line (0 past the end), as a `u16`.
pub open spec fn current_row_len_of(m: EditorModel) -> u16 {
    ((byte_len(row_or_empty(m.document.rows, m.position_y as int)) as usize) as u16)
}

/// The cursor column kept within the current line (at most its last column).
pub open spec fn clamp_x(m: EditorModel) -> EditorModel {
    let max_x = current_row_len_of(m).saturating_sub(1);
    if m.position_x > max_x {
        EditorModel { position_x: max_x, ..m }
    } else {
        m
    }
}

/// The cursor row kept within the document (at most its last line).
pub open spec fn clamp_y(m: EditorModel) -> EditorModel {
    let last = ((m.document.rows.len() as usize).saturating_sub(1)) as u16;
    if m.position_y > last {
        EditorModel { position_y: last, ..m }
    } else {
        m
    }
}

/// The viewport can follow the cursor without overflow: the screen has a line
/// for the status, and the viewport's far edges fit in a `u16`.
pub open spec fn scroll_ok(m: EditorModel) -> bool {
    let text_rows = m.screen_rows - 1;
    &&& m.screen_rows >= 1
    &&& m.position_y >= m.offset_y ==> m.offset_y + text_rows <= u16::MAX
    &&& m.position_y >= m.offset_y + text_rows ==> m.position_y - text_rows + 1 <= u16::MAX
    &&& m.position_x >= m.offset_x ==> m.offset_x + m.screen_cols <= u16::MAX
    &&& m.position_x >= m.offset_x + m.screen_cols ==> m.position_x - m.screen_cols + 1 <= u16::MAX
}

/// The viewport moved just enough to show the cursor.
pub open spec fn scrolled(m: EditorModel) -> EditorModel {
    let text_rows = m.screen_rows - 1;
    let offset_y = if m.position_y < m.offset_y {
        m.position_y
    } else if m.position_y >= m.offset_y + text_rows {
        (m.position_y - text_rows + 1) as u16
    } else {
        m.offset_y
    };
    let offset_x = if m.position_x < m.offset_x {
        m.position_x
    } else if m.position_x >= m.offset_x + m.screen_cols {
        (m.position_x - m.screen_cols + 1) as u16
    } else {
        m.offset_x
    };
    EditorModel { offset_x, offset_y, ..m }
}

/// What screen line `i` shows: the document line under it with the first
/// `offset_x` chars scrolled away and at most `cols` chars, or `~` past the end.
pub open spec fn screen_line(m: EditorModel, i: int) -> Seq<char> {
    let y = m.offset_y + i;
    if y < m.document.rows.len() {
        let s = m.document.rows[y];
        let from = if m.offset_x < s.len() { m.offset_x as int } else { s.len() as int };
        let to = if from + m.screen_cols < s.len() { from + m.screen_cols } else { s.len() as int };
        s.subrange(from, to)
    } else {
        seq!['~']
    }
}

/// The decimal digit `d` (0 to 9).
pub open spec fn digit_char(d: nat) -> char {
    if d == 0 { '0' } else if d == 1 { '1' } else if d == 2 { '2' } else if d == 3 { '3' }
    else if d == 4 { '4' } else if d == 5 { '5' } else if d == 6 { '6' } else if d == 7 { '7' }
    else if d == 8 { '8' } else { '9' }
}

/// `n` written in decimal, without leading zeros.
pub open spec fn decimal(n: nat) -> Seq<char>
    decreases n,
{
    if n < 10 {
        seq![digit_char(n)]
    } else {
        decimal(n / 10).push(digit_char(n % 10))
    }
}

/// The name of a mode, as the status line shows it.
pub open spec fn mode_name(mode: Mode) -> Seq<char> {
    match mode {
        Mode::Normal => seq!['N', 'o', 'r', 'm', 'a', 'l'],
        Mode::Insert => seq!['I', 'n', 's', 'e', 'r', 't'],
        Mode::Command => seq!['C', 'o', 'm', 'm', 'a', 'n', 'd'],
    }
}

/// The status line: the file name (or `[No Name]`), ` [+]` when there are
/// unsaved changes, the mode, and the cursor's line and column counted from 1,
/// as in `name [+] | Mode | line:col`.
pub open spec fn status_text(m: EditorModel) -> Seq<char> {
    let name = match m.document.filename {
        Some(n) => n,
        None => seq!['[', 'N', 'o', ' ', 'N', 'a', 'm', 'e', ']'],
    };
    let modified = if m.document.dirty { seq![' ', '[', '+', ']'] } else { Seq::empty() };
    let sep = seq![' ', '|', ' '];
    name + modified + sep + mode_name(m.mode) + sep + decimal((m.position_y + 1) as nat) + seq![':']
        + decimal((m.position_x + 1) as nat)
}

/// Append `n` in decimal to `s`.
fn push_decimal(s: &mut String, n: u32)
    ensures
        final(s)@ == old(s)@ + decimal(n as nat),
    decreases n,
{
    if n >= 10 {
        push_decimal(s, n / 10);
    }
    let d = n % 10;
    let c = if d == 0 { '0' } else if d == 1 { '1' } else if d == 2 { '2' } else if d == 3 { '3' }
        else if d == 4 { '4' } else if d == 5 { '5' } else if d == 6 { '6' } else if d == 7 { '7' }
        else if d == 8 { '8' } else { '9' };
    let ghost before = s@;
    crate::text::push_char(s, c);
    proof {
        if n >= 10 {
            assert(s@ =~= old(s)@ + decimal(n as nat));
        } else {
            assert(s@ =~= old(s)@ + decimal(n as nat));
        }
    }
}

impl Editor {
    /// An editor on `document`, in Normal mode with the cursor at the top. The
    /// screen size is 0 x 0 until `set_screen_size` reports the terminal's.
    pub fn new(document: Document) -> (e: Self)
        ensures
            e@ == (EditorModel {
                should_quit: false,
                awaiting_g: false,
                pending_op: None,
                count: None,
                register: RegisterModel::Char(Seq::empty()),
                document: document@,
                mode: Mode::Normal,
                position_x: 0,
                position_y: 0,
                offset_x: 0,
                offset_y: 0,
                command_line: Seq::empty(),
                keymap: keymap::default_bindings(),
                screen_cols: 0,
                screen_rows: 0,
                save_requested: false,
            }),
    {
        Self {
            should_quit: false,
            awaiting_g: false,
            pending_op: None,
            count: None,
            register: Register::Char(String::new()),
            document,
            mode: Mode::Normal,
            position_x: 0,
            position_y: 0,
            offset_x: 0,
            offset_y: 0,
            command_line: CommandLine::new(),
            keymap: Keymap::default_vim(),
            screen_cols: 0,
            screen_rows: 0,
            save_requested: false,
        }
    }

    /// A copy of the editor.
    pub fn snapshot(&self) -> (e: Self)
        ensures
            e@ == self@,
    {
        Self {
            should_quit: self.should_quit,
            awaiting_g: self.awaiting_g,
            pending_op: self.pending_op,
            count: self.count,
            register: self.register.snapshot(),
            document: self.document.snapshot(),
            mode: self.mode,
            position_x: self.position_x,
            position_y: self.position_y,
            offset_x: self.offset_x,
            offset_y: self.offset_y,
            command_line: self.command_line.snapshot(),
            keymap: self.keymap.snapshot(),
            screen_cols: self.screen_cols,
            screen_rows: self.screen_rows,
            save_requested: self.save_requested,
        }
    }

    /// The text the last operator removed.
    pub fn register(&self) -> (r: &Register)
        ensures
            r@ == self@.register,
    {
        &self.register
    }

    /// The count typed so far, if any.
    pub fn count(&self) -> (c: Option<usize>)
        ensures
            c == self@.count,
    {
        self.count
    }

    /// The document being edited.
    pub fn document(&self) -> (d: &Document)
        ensures
            d@ == self@.document,
    {
        &self.document
    }

    /// The document being edited, for the caller to save it.
    pub fn document_mut(&mut self) -> (d: &mut Document)
        ensures
            (*d)@ == old(self)@.document,
            final(self)@ == (EditorModel { document: final(d)@, ..old(self)@ }),
    {
        &mut self.document
    }

    /// The current mode.
    pub fn mode(&self) -> (m: Mode)
        ensures
            m == self@.mode,
    {
        self.mode
    }

    /// The cursor position `(column, line)`.
    pub fn position(&self) -> (p: (u16, u16))
        ensures
            p == (self@.position_x, self@.position_y),
    {
        (self.position_x, self.position_y)
    }

    /// The viewport's top-left corner `(column, line)`.
    pub fn offset(&self) -> (p: (u16, u16))
        ensures
            p == (self@.offset_x, self@.offset_y),
    {
        (self.offset_x, self.offset_y)
    }

    /// The text typed on the command line.
    pub fn command_text(&self) -> (s: String)
        ensures
            s@ == self@.command_line,
    {
        let chars = self.command_line.chars();
        string_of_range(&chars, 0, chars.len())
    }

    /// Whether the editor was asked to quit.
    pub fn should_quit(&self) -> (b: bool)
        ensures
            b == self@.should_quit,
    {
        self.should_quit
    }

    /// Whether a save was asked for; clears the request.
    pub fn take_save_request(&mut self) -> (b: bool)
        ensures
            b == old(self)@.save_requested,
            final(self)@ == (EditorModel { save_requested: false, ..old(self)@ }),
    {
        let b = self.save_requested;
        self.save_requested = false;
        b
    }

    /// Record the terminal's current size.
    pub fn set_screen_size(&mut self, cols: u16, rows: u16)
        ensures
            final(self)@ == (EditorModel { screen_cols: cols, screen_rows: rows, ..old(self)@ }),
    {
        self.screen_cols = cols;
        self.screen_rows = rows;
    }

    /// Length of the line the cursor is on.
    pub fn current_row_len(&self) -> (n: u16)
        ensures
            n == current_row_len_of(self@),
    {
        self.document.line_len(self.position_y as usize) as u16
    }

    /// Keep the cursor column within the current line.
    pub fn clamp_x_to_row(&mut self)
        ensures
            final(self)@ == clamp_x(old(self)@),
    {
        let max_x = self.current_row_len().saturating_sub(1);
        if self.position_x > max_x {
            self.position_x = max_x;
        }
    }

    /// Keep the cursor row within the document.
    fn clamp_y_to_doc(&mut self)
        ensures
            final(self)@ == clamp_y(old(self)@),
    {
        let last = self.document.rows_len().saturating_sub(1) as u16;
        if self.position_y > last {
            self.position_y = last;
        }
    }

    /// Whether `scroll()` may be called (its precondition).
    pub fn can_scroll(&self) -> (b: bool)
        ensures
            b == scroll_ok(self@),
    {
        if self.screen_rows < 1 {
            return false;
        }
        let text_rows = self.screen_rows - 1;
        let (px, py, ox, oy) = (self.position_x as u32, self.position_y as u32, self.offset_x as u32, self.offset_y as u32);
        let (cols, tr) = (self.screen_cols as u32, text_rows as u32);
        let max = u16::MAX as u32;
        (py < oy || oy + tr <= max) && (py < oy + tr || py - tr + 1 <= max)
            && (px < ox || ox + cols <= max) && (px < ox + cols || px - cols + 1 <= max)
    }

    /// Move the viewport just enough to show the cursor.
    pub fn scroll(&mut self)
        requires
            scroll_ok(old(self)@),
        ensures
            final(self)@ == scrolled(old(self)@),
    {
        let (cols, rows) = (self.screen_cols, self.screen_rows);
        let text_rows = rows - 1;
        // Vertical
        if self.position_y < self.offset_y {
            self.offset_y = self.position_y;
        } else if self.position_y >= self.offset_y + text_rows {
            self.offset_y = self.position_y - text_rows + 1;
        }
        // Horizontal
        if self.position_x < self.offset_x {
            self.offset_x = self.position_x;
        } else if self.position_x >= self.offset_x + cols {
            self.offset_x = self.position_x - cols + 1;
        }
    }

    /// The status line shown under the text (see `status_text`).
    pub fn status_line(&self) -> (s: String)
        requires
            self@.position_x < u16::MAX,
            self@.position_y < u16::MAX,
        ensures
            s@ == status_text(self@),
    {
        let mut s = String::new();
        match self.document.filename() {
            Some(name) => {
                let v = chars_of(name);
                crate::text::push_chars(&mut s, &v);
            },
            None => {
                let v = vec!['[', 'N', 'o', ' ', 'N', 'a', 'm', 'e', ']'];
                crate::text::push_chars(&mut s, &v);
            },
        }
        if self.document.is_dirty() {
            let v = vec![' ', '[', '+', ']'];
            crate::text::push_chars(&mut s, &v);
        }
        let sep = vec![' ', '|', ' '];
        crate::text::push_chars(&mut s, &sep);
        let mode = match self.mode {
            Mode::Normal => vec!['N', 'o', 'r', 'm', 'a', 'l'],
            Mode::Insert => vec!['I', 'n', 's', 'e', 'r', 't'],
            Mode::Command => vec!['C', 'o', 'm', 'm', 'a', 'n', 'd'],
        };
        crate::text::push_chars(&mut s, &mode);
        crate::text::push_chars(&mut s, &sep);
        push_decimal(&mut s, self.position_y as u32 + 1);
        let colon = vec![':'];
        crate::text::push_chars(&mut s, &colon);
        push_decimal(&mut s, self.position_x as u32 + 1);
        proof {
            assert(s@ =~= status_text(self@));
        }
        s
    }

    /// The text lines of the screen (all but the status line, which is last).
    pub fn screen_lines(&self) -> (v: Vec<String>)
        requires
            self@.screen_rows >= 1,
        ensures
            v@.len() == self@.screen_rows - 1,
            forall|i: int| 0 <= i < v@.len() ==> v@[i]@ == screen_line(self@, i),
    {
        let mut v: Vec<String> = Vec::new();
        let n = self.screen_rows - 1;
        let mut i: u16 = 0;
        while i < n
            invariant
                i <= n,
                n == self@.screen_rows - 1,
                v@.len() == i,
                forall|j: int| 0 <= j < i ==> v@[j]@ == screen_line(self@, j),
            decreases n - i,
        {
            let doc_row = self.offset_y as usize + i as usize;
            let line = match self.document.row(doc_row) {
                Some(text) => {
                    let chars = chars_of(text);
                    let len = chars.len();
                    let from = if (self.offset_x as usize) < len { self.offset_x as usize } else { len };
                    let to = if from + (self.screen_cols as usize) < len {
                        from + self.screen_cols as usize
                    } else {
                        len
                    };
                    string_of_range(&chars, from, to)
                },
                None => {
                    let mut s = String::new();
                    crate::text::push_char(&mut s, '~');
                    proof {
                        assert(s@ =~= seq!['~']);
                    }
                    s
                },
            };
            v.push(line);
            i += 1;
        }
        v
    }
}

} // verus!
