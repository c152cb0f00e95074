//! The text buffer: its lines plus the name of the file it came from and
//! whether it has unsaved changes.
use vstd::prelude::*;

use crate::text::{byte_len, chars_of, join_lines, lines_of, push_char, split_lines, str_byte_len};

pub mod edit;
pub mod motion;
pub mod search;



verus! {

/// What a document holds, as mathematical values.
pub struct DocumentModel {
    /// The lines, each a sequence of chars (no line terminators).
    pub rows: Seq<Seq<char>>,
    /// The backing file name, if any.
    pub filename: Option<Seq<char>>,
    /// Whether there are unsaved changes.
    pub dirty: bool,
}

/// An in-memory text buffer: the lines plus file metadata.
#[derive(Clone)]
pub struct Document {
    rows: Vec<String>,
    filename: Option<String>,
    dirty: bool,
}

/// The chars of each string.
pub open spec fn strings_view(v: Seq<String>) -> Seq<Seq<char>> {
    v.map_values(|s: String| s@)
}

/// The chars of an optional string.
pub open spec fn opt_string_view(o: Option<String>) -> Option<Seq<char>> {
    match o {
        Some(s) => Some(s@),
        None => None,
    }
}

impl View for Document {
    type V = DocumentModel;

    closed spec fn view(&self) -> DocumentModel {
        DocumentModel {
            rows: strings_view(self.rows@),
            filename: opt_string_view(self.filename),
            dirty: self.dirty,
        }
    }
}

/// Line `y` of `rows`, or the empty line when there is none.
pub open spec fn row_or_empty(rows: Seq<Seq<char>>, y: int) -> Seq<char> {
    if 0 <= y < rows.len() {
        rows[y]
    } else {
        Seq::empty()
    }
}

impl Document {
    /// An empty document with no backing file.
    pub fn empty() -> (d: Self)
        ensures
            d@ == (DocumentModel { rows: Seq::empty(), filename: None, dirty: false }),
    {
        let d = Self { rows: Vec::new(), filename: None, dirty: false };
        proof {
            assert(d@.rows =~= Seq::<Seq<char>>::empty());
        }
        d
    }

    /// Build a document directly from lines, with no backing file.
    pub fn from_lines(lines: &[&str]) -> (d: Self)
        ensures
            d@.rows.len() == lines@.len(),
            forall|i: int| 0 <= i < lines@.len() ==> d@.rows[i] == lines@[i]@,
            d@.filename is None,
            !d@.dirty,
    {
        let mut rows: Vec<String> = Vec::new();
        let mut i: usize = 0;
        while i < lines.len()
            invariant
                i <= lines@.len(),
                rows@.len() == i,
                forall|j: int| 0 <= j < i ==> rows@[j]@ == lines@[j]@,
            decreases lines.len() - i,
        {
            let s: &str = lines[i];
            rows.push(s.to_owned());
            i += 1;
        }
        Self { rows, filename: None, dirty: false }
    }

    /// The lines as `&str`.
    pub fn lines(&self) -> (v: Vec<&str>)
        ensures
            v@.len() == self@.rows.len(),
            forall|i: int| 0 <= i < v@.len() ==> v@[i]@ == self@.rows[i],
    {
        let mut v: Vec<&str> = Vec::new();
        let mut i: usize = 0;
        while i < self.rows.len()
            invariant
                i <= self.rows@.len(),
                v@.len() == i,
                forall|j: int| 0 <= j < i ==> v@[j]@ == self@.rows[j],
            decreases self.rows.len() - i,
        {
            v.push(self.rows[i].as_str());
            i += 1;
        }
        v
    }

    /// The line at index `i`, if it exists.
    pub fn row(&self, i: usize) -> (r: Option<&str>)
        ensures
            i < self@.rows.len() ==> (r matches Some(s) && s@ == self@.rows[i as int]),
            i >= self@.rows.len() ==> r is None,
    {
        if i < self.rows.len() {
            Some(self.rows[i].as_str())
        } else {
            None
        }
    }

    /// The backing file name, if any.
    pub fn filename(&self) -> (r: Option<&str>)
        ensures
            self@.filename is None ==> r is None,
            self@.filename matches Some(n) ==> (r matches Some(s) && s@ == n),
    {
        match &self.filename {
            Some(s) => Some(s.as_str()),
            None => None,
        }
    }

    /// Whether the buffer has no lines.
    pub fn is_empty(&self) -> (b: bool)
        ensures
            b == (self@.rows.len() == 0),
    {
        self.rows.len() == 0
    }

    /// Whether there are unsaved changes.
    pub fn is_dirty(&self) -> (b: bool)
        ensures
            b == self@.dirty,
    {
        self.dirty
    }

    /// Number of lines.
    pub fn rows_len(&self) -> (n: usize)
        ensures
            n == self@.rows.len(),
    {
        self.rows.len()
    }

    /// Length (in bytes) of line `i`, or 0 if it doesn't exist.
    pub fn line_len(&self, i: usize) -> (n: usize)
        ensures
            n == byte_len(row_or_empty(self@.rows, i as int)) as usize,
    {
        if i < self.rows.len() {
            str_byte_len(self.rows[i].as_str())
        } else {
            0
        }
    }

    /// The character at `(x, y)`, if it exists.
    pub fn char_at(&self, x: usize, y: usize) -> (r: Option<char>)
        ensures
            (y < self@.rows.len() && x < self@.rows[y as int].len()) ==> r == Some(
                self@.rows[y as int][x as int],
            ),
            !(y < self@.rows.len() && x < self@.rows[y as int].len()) ==> r is None,
    {
        if y < self.rows.len() {
            let chars = chars_of(self.rows[y].as_str());
            if x < chars.len() {
                return Some(chars[x]);
            }
        }
        None
    }


    /// A document holding the lines of `text` (the contents of file `filename`),
    /// with no unsaved changes.
    pub fn from_text(filename: &str, text: &str) -> (d: Self)
        ensures
            d@ == (DocumentModel { rows: lines_of(text@), filename: Some(filename@), dirty: false }),
    {
        let rows = split_lines(text);
        Self { rows, filename: Some(filename.to_owned()), dirty: false }
    }

    /// The text to write back to the backing file, if there is one: the lines
    /// joined with `'\n'`.
    pub fn save_text(&self) -> (t: Option<String>)
        ensures
            self@.filename is None ==> t is None,
            self@.filename is Some ==> (t matches Some(s) && s@ == join_lines(self@.rows)),
    {
        if self.filename.is_none() {
            return None;
        }
        let mut out = String::new();
        let mut i: usize = 0;
        while i < self.rows.len()
            invariant
                i <= self@.rows.len(),
                out@ == join_lines(self@.rows.take(i as int)),
            decreases self.rows.len() - i,
        {
            let chars = chars_of(self.rows[i].as_str());
            let ghost prefix = out@;
            if i > 0 {
                push_char(&mut out, '\n');
            }
            let ghost base = out@;
            let mut j: usize = 0;
            while j < chars.len()
                invariant
                    j <= chars@.len(),
                    out@ == base + chars@.take(j as int),
                decreases chars.len() - j,
            {
                push_char(&mut out, chars[j]);
                j += 1;
                proof {
                    assert(out@ =~= base + chars@.take(j as int));
                }
            }
            proof {
                let t = self@.rows.take(i + 1);
                assert(t.drop_last() =~= self@.rows.take(i as int));
                assert(chars@.take(chars@.len() as int) =~= chars@);
                if i == 0 {
                    assert(out@ =~= join_lines(t));
                } else {
                    assert(out@ =~= join_lines(t));
                }
            }
            i += 1;
        }
        proof {
            assert(self@.rows.take(self@.rows.len() as int) =~= self@.rows);
        }
        Some(out)
    }

    /// Record that the text was written to the backing file: clears the dirty
    /// flag when there is a backing file.
    pub fn mark_saved(&mut self)
        ensures
            final(self)@ == (DocumentModel {
                dirty: if old(self)@.filename is Some { false } else { old(self)@.dirty },
                ..old(self)@
            }),
    {
        if self.filename.is_some() {
            self.dirty = false;
        }
    }

    /// A copy of the document.
    pub fn snapshot(&self) -> (d: Self)
        ensures
            d@ == self@,
    {
        let mut rows: Vec<String> = Vec::new();
        let mut i: usize = 0;
        while i < self.rows.len()
            invariant
                i <= self.rows@.len(),
                rows@.len() == i,
                forall|j: int| 0 <= j < i ==> rows@[j]@ == self.rows@[j]@,
            decreases self.rows.len() - i,
        {
            rows.push(self.rows[i].clone());
            i += 1;
        }
        let filename = match &self.filename {
            Some(f) => Some(f.clone()),
            None => None,
        };
        let d = Self { rows, filename, dirty: self.dirty };
        proof {
            assert(d@.rows =~= self@.rows);
        }
        d
    }

    /// The chars of line `y` (which must exist).
    fn row_chars(&self, y: usize) -> (v: Vec<char>)
        requires
            y < self@.rows.len(),
        ensures
            v@ == self@.rows[y as int],
    {
        chars_of(self.rows[y].as_str())
    }
}

} // verus!
