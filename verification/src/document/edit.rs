//! Editing operations on a document. Column arguments of the single-line
//! edits are byte offsets into the line (as std's `String` methods take them);
//! those of `delete_range` count chars.
use vstd::prelude::*;

use super::{Document, DocumentModel};
use crate::text::{
    byte_len, byte_to_char, char_index, chars_of, is_boundary, join_lines, lemma_join_push, push_chars, string_of, string_of_range, within_bytes,
};

verus! {

/// The rows a char insertion works on: an empty document first gets one empty line.
pub open spec fn padded(rows: Seq<Seq<char>>) -> Seq<Seq<char>> {
    if rows.len() == 0 {
        seq![Seq::empty()]
    } else {
        rows
    }
}

/// `rows` with the first `n` chars of `s` kept (all of it when shorter).
pub open spec fn take_chars(s: Seq<char>, n: int) -> Seq<char> {
    if n < s.len() {
        s.take(n)
    } else {
        s
    }
}

/// `s` without its first `n` chars (empty when shorter).
pub open spec fn skip_chars(s: Seq<char>, n: int) -> Seq<char> {
    if n < s.len() {
        s.skip(n)
    } else {
        Seq::empty()
    }
}

/// `(x1, y1)` comes no later than `(x2, y2)` in reading order (line first, then column).
pub open spec fn pos_le(a: (usize, usize), b: (usize, usize)) -> bool {
    a.1 < b.1 || (a.1 == b.1 && a.0 <= b.0)
}

/// The rows left after deleting the half-open char range `[start, end)`,
/// `start` not later than `end`.
pub open spec fn rows_after_delete(
    rows: Seq<Seq<char>>,
    start: (usize, usize),
    end: (usize, usize),
) -> Seq<Seq<char>> {
    let (sx, sy) = (start.0 as int, start.1 as int);
    let (ex, ey) = (end.0 as int, end.1 as int);
    if sy == ey {
        if sy < rows.len() {
            rows.update(sy, take_chars(rows[sy], sx) + skip_chars(rows[sy], ex))
        } else {
            rows
        }
    } else if ey < rows.len() {
        rows.take(sy).push(take_chars(rows[sy], sx) + skip_chars(rows[ey], ex)) + rows.skip(ey + 1)
    } else {
        rows
    }
}

/// A char can be inserted at byte offset `x` of line `y`: the offset lies on a
/// char boundary of that line, if it exists (after padding an empty document).
pub open spec fn insert_char_ok(d: DocumentModel, x: usize, y: usize) -> bool {
    y < padded(d.rows).len() ==> is_boundary(padded(d.rows)[y as int], x as int)
}

/// The document after inserting `ch` at byte offset `x` of line `y`.
pub open spec fn after_insert_char(d: DocumentModel, x: usize, y: usize, ch: char) -> DocumentModel {
    let rows = padded(d.rows);
    DocumentModel {
        rows: if y < rows.len() {
            rows.update(y as int, rows[y as int].insert(char_index(rows[y as int], x as int), ch))
        } else {
            rows
        },
        dirty: true,
        ..d
    }
}

/// The char at byte offset `x` of line `y` can be deleted: a char starts
/// there, if the line exists.
pub open spec fn delete_char_ok(d: DocumentModel, x: usize, y: usize) -> bool {
    y < d.rows.len() ==> (is_boundary(d.rows[y as int], x as int) && char_index(d.rows[y as int], x as int)
        < d.rows[y as int].len())
}

/// The document after deleting the char at byte offset `x` of line `y`.
pub open spec fn after_delete_char(d: DocumentModel, x: usize, y: usize) -> DocumentModel {
    DocumentModel {
        rows: if y < d.rows.len() {
            d.rows.update(y as int, d.rows[y as int].remove(char_index(d.rows[y as int], x as int)))
        } else {
            d.rows
        },
        dirty: true,
        ..d
    }
}

/// The document after joining line `y` onto line `y - 1` (unchanged for line 0
/// or a missing line).
pub open spec fn after_join_line(d: DocumentModel, y: usize) -> DocumentModel {
    if y == 0 || y >= d.rows.len() {
        d
    } else {
        DocumentModel {
            rows: d.rows.update(y - 1, d.rows[y - 1] + d.rows[y as int]).remove(y as int),
            dirty: true,
            ..d
        }
    }
}

/// Line `y` can be split at byte offset `x`: the offset lies on a char
/// boundary of that line, if it exists.
pub open spec fn insert_newline_ok(d: DocumentModel, x: usize, y: usize) -> bool {
    y < d.rows.len() ==> is_boundary(d.rows[y as int], x as int)
}

/// The document after splitting line `y` at byte offset `x` (for a missing
/// line: an empty line appended). Either way it has unsaved changes.
pub open spec fn after_insert_newline(d: DocumentModel, x: usize, y: usize) -> DocumentModel {
    if y >= d.rows.len() {
        DocumentModel { rows: d.rows.push(Seq::empty()), dirty: true, ..d }
    } else {
        let k = char_index(d.rows[y as int], x as int);
        DocumentModel {
            rows: d.rows.update(y as int, d.rows[y as int].take(k)).insert(y + 1, d.rows[y as int].skip(k)),
            dirty: true,
            ..d
        }
    }
}

/// The document after removing line `y` (if it exists).
pub open spec fn after_remove_line(d: DocumentModel, y: usize) -> DocumentModel {
    DocumentModel {
        rows: if y < d.rows.len() {
            d.rows.remove(y as int)
        } else {
            d.rows
        },
        dirty: true,
        ..d
    }
}

/// Line `y` can be cut at byte offset `x`: an offset within the line lies on a
/// char boundary, if the line exists.
pub open spec fn truncate_ok(d: DocumentModel, x: usize, y: usize) -> bool {
    y < d.rows.len() && x <= byte_len(d.rows[y as int]) ==> is_boundary(d.rows[y as int], x as int)
}

/// The document after cutting line `y` at byte offset `x` (an offset past the
/// end leaves the line as it is).
pub open spec fn after_truncate(d: DocumentModel, x: usize, y: usize) -> DocumentModel {
    DocumentModel {
        rows: if y < d.rows.len() && is_boundary(d.rows[y as int], x as int) {
            d.rows.update(y as int, d.rows[y as int].take(char_index(d.rows[y as int], x as int)))
        } else {
            d.rows
        },
        dirty: true,
        ..d
    }
}

/// The document after deleting the char range between `from` and `to`.
pub open spec fn after_delete_range(d: DocumentModel, from: (usize, usize), to: (usize, usize)) -> DocumentModel {
    DocumentModel {
        rows: if pos_le(from, to) {
            rows_after_delete(d.rows, from, to)
        } else {
            rows_after_delete(d.rows, to, from)
        },
        dirty: true,
        ..d
    }
}

/// The text that deleting `[start, end)` removes (`start` not later than
/// `end`), its lines joined with `'\n'`; nothing when the range ends on a
/// missing line.
pub open spec fn removed_text(rows: Seq<Seq<char>>, start: (usize, usize), end: (usize, usize)) -> Seq<char> {
    let (sx, sy) = (start.0 as int, start.1 as int);
    let (ex, ey) = (end.0 as int, end.1 as int);
    if sy == ey {
        if sy < rows.len() {
            skip_chars(take_chars(rows[sy], ex), sx)
        } else {
            Seq::empty()
        }
    } else if ey < rows.len() {
        join_lines(seq![skip_chars(rows[sy], sx)] + rows.subrange(sy + 1, ey) + seq![take_chars(rows[ey], ex)])
    } else {
        Seq::empty()
    }
}

/// The text between `from` and `to` (in either order), as `delete_range` would remove it.
pub open spec fn text_between(rows: Seq<Seq<char>>, from: (usize, usize), to: (usize, usize)) -> Seq<char> {
    if pos_le(from, to) {
        removed_text(rows, from, to)
    } else {
        removed_text(rows, to, from)
    }
}

impl Document {
    /// Replace line `y` by the chars of `v`.
    fn set_row(&mut self, y: usize, v: &Vec<char>)
        requires
            y < old(self)@.rows.len(),
        ensures
            final(self)@ == (DocumentModel { rows: old(self)@.rows.update(y as int, v@), ..old(self)@ }),
    {
        let s = string_of(v);
        self.rows.set(y, s);
        proof {
            assert(self@.rows =~= old(self)@.rows.update(y as int, v@));
        }
    }

    /// Insert `ch` at byte offset `x` of line `y`. An empty document first gets
    /// an empty line; a missing line is left alone. Marks the document dirty.
    pub fn insert_char(&mut self, x: usize, y: usize, ch: char)
        requires
            insert_char_ok(old(self)@, x, y),
        ensures
            final(self)@ == after_insert_char(old(self)@, x, y, ch),
    {
        if self.rows.len() == 0 {
            self.rows.push(String::new());
            proof {
                assert(self@.rows =~= padded(old(self)@.rows));
            }
        }
        if y < self.rows.len() {
            let mut chars = chars_of(self.rows[y].as_str());
            let k = byte_to_char(&chars, x).unwrap();
            chars.insert(k, ch);
            self.set_row(y, &chars);
        }
        self.dirty = true;
    }

    /// Delete the char that starts at byte offset `x` of line `y` (a missing line
    /// is left alone). Marks the document dirty.
    pub fn delete_char(&mut self, x: usize, y: usize)
        requires
            delete_char_ok(old(self)@, x, y),
        ensures
            final(self)@ == after_delete_char(old(self)@, x, y),
    {
        if y < self.rows.len() {
            let mut chars = chars_of(self.rows[y].as_str());
            let k = byte_to_char(&chars, x).unwrap();
            chars.remove(k);
            self.set_row(y, &chars);
        }
        self.dirty = true;
    }

    /// Append line `y` onto the end of line `y - 1`, removing line `y`.
    /// Nothing changes (not even the dirty flag) for line 0 or a missing line.
    pub fn join_line(&mut self, y: usize)
        ensures
            final(self)@ == after_join_line(old(self)@, y),
    {
        if y == 0 || y >= self.rows.len() {
            return;
        }
        let current = self.rows.remove(y);
        let mut prev = chars_of(self.rows[y - 1].as_str());
        let cur = chars_of(current.as_str());
        let mut i: usize = 0;
        let ghost prev0 = prev@;
        while i < cur.len()
            invariant
                i <= cur@.len(),
                prev@ == prev0 + cur@.take(i as int),
            decreases cur.len() - i,
        {
            prev.push(cur[i]);
            i += 1;
            proof {
                assert(prev@ =~= prev0 + cur@.take(i as int));
            }
        }
        proof {
            assert(cur@.take(cur@.len() as int) =~= cur@);
        }
        self.set_row(y - 1, &prev);
        self.dirty = true;
        proof {
            assert(self@.rows =~= old(self)@.rows.update(
                y - 1,
                old(self)@.rows[y - 1] + old(self)@.rows[y as int],
            ).remove(y as int));
        }
    }

    /// Split line `y` at byte offset `x`, moving the tail onto a new line below.
    /// For a missing line, an empty line is appended instead. Marks the document
    /// dirty.
    pub fn insert_newline(&mut self, x: usize, y: usize)
        requires
            insert_newline_ok(old(self)@, x, y),
        ensures
            final(self)@ == after_insert_newline(old(self)@, x, y),
    {
        if y >= self.rows.len() {
            self.rows.push(String::new());
            self.dirty = true;
            proof {
                assert(self@.rows =~= old(self)@.rows.push(Seq::empty()));
            }
            return;
        }
        let chars = chars_of(self.rows[y].as_str());
        let k = byte_to_char(&chars, x).unwrap();
        let head = string_of_range(&chars, 0, k);
        let rest = string_of_range(&chars, k, chars.len());
        self.rows.set(y, head);
        self.rows.insert(y + 1, rest);
        self.dirty = true;
        proof {
            assert(chars@.subrange(0, k as int) =~= chars@.take(k as int));
            assert(chars@.subrange(k as int, chars@.len() as int) =~= chars@.skip(k as int));
            assert(self@.rows =~= old(self)@.rows.update(
                y as int,
                old(self)@.rows[y as int].take(k as int),
            ).insert(y + 1, old(self)@.rows[y as int].skip(k as int)));
        }
    }

    /// Remove line `y` entirely (a missing line is left alone). Marks the document dirty.
    pub fn remove_line(&mut self, y: usize)
        ensures
            final(self)@ == after_remove_line(old(self)@, y),
    {
        if y < self.rows.len() {
            self.rows.remove(y);
            proof {
                assert(self@.rows =~= old(self)@.rows.remove(y as int));
            }
        }
        self.dirty = true;
    }

    /// Cut line `y` down to byte offset `x` (delete from the cursor to end of line);
    /// an offset at or past the end leaves the line as it is. Marks the document dirty.
    pub fn truncate(&mut self, x: usize, y: usize)
        requires
            truncate_ok(old(self)@, x, y),
        ensures
            final(self)@ == after_truncate(old(self)@, x, y),
    {
        if y < self.rows.len() {
            let chars = chars_of(self.rows[y].as_str());
            match byte_to_char(&chars, x) {
                Some(k) => {
                    let head = string_of_range(&chars, 0, k);
                    self.rows.set(y, head);
                    proof {
                        assert(chars@.subrange(0, k as int) =~= chars@.take(k as int));
                        assert(self@.rows =~= old(self)@.rows.update(y as int, chars@.take(k as int)));
                    }
                },
                None => {},
            }
        }
        self.dirty = true;
    }

    /// `take_chars(s, n) + skip_chars(t, m)` as a vector.
    fn head_tail(s: &Vec<char>, n: usize, t: &Vec<char>, m: usize) -> (v: Vec<char>)
        ensures
            v@ == take_chars(s@, n as int) + skip_chars(t@, m as int),
    {
        let mut v: Vec<char> = Vec::new();
        let hn = if n < s.len() { n } else { s.len() };
        let mut i: usize = 0;
        while i < hn
            invariant
                hn <= s@.len(),
                hn == (if n < s@.len() { n as int } else { s@.len() as int }),
                i <= hn,
                v@ == s@.take(i as int),
            decreases hn - i,
        {
            v.push(s[i]);
            i += 1;
            proof {
                assert(v@ =~= s@.take(i as int));
            }
        }
        let ghost head = v@;
        proof {
            assert(head =~= take_chars(s@, n as int));
        }
        if m < t.len() {
            let mut j: usize = m;
            while j < t.len()
                invariant
                    m <= j <= t@.len(),
                    v@ == head + t@.subrange(m as int, j as int),
                decreases t.len() - j,
            {
                v.push(t[j]);
                j += 1;
                proof {
                    assert(v@ =~= head + t@.subrange(m as int, j as int));
                }
            }
            proof {
                assert(t@.subrange(m as int, t@.len() as int) =~= skip_chars(t@, m as int));
            }
        } else {
            proof {
                assert(v@ =~= head + skip_chars(t@, m as int));
            }
        }
        v
    }

    /// Delete the half-open char range `[from, to)` (the two ends may come in
    /// either order, and may lie on different lines, whose outer parts are then
    /// joined). Columns count chars and are clamped to the line. A range that
    /// ends on a missing line deletes nothing. Marks the document dirty and
    /// returns the new cursor position: the start of the range.
    pub fn delete_range(&mut self, from: (usize, usize), to: (usize, usize)) -> (r: (usize, usize))
        ensures
            r == (if pos_le(from, to) { from } else { to }),
            final(self)@ == after_delete_range(old(self)@, from, to),
    {
        let (start, end) = if from.1 < to.1 || (from.1 == to.1 && from.0 <= to.0) {
            (from, to)
        } else {
            (to, from)
        };
        let (sx, sy) = (start.0, start.1);
        let (ex, ey) = (end.0, end.1);

        if sy == ey {
            if sy < self.rows.len() {
                let chars = chars_of(self.rows[sy].as_str());
                let joined = Self::head_tail(&chars, sx, &chars, ex);
                self.set_row(sy, &joined);
            }
        } else if ey < self.rows.len() {
            let first = chars_of(self.rows[sy].as_str());
            let last = chars_of(self.rows[ey].as_str());
            let joined = Self::head_tail(&first, sx, &last, ex);
            let ghost rows0 = self@.rows;
            let mut k: usize = sy;
            while k < ey
                invariant
                    sy <= k <= ey,
                    sy < ey < rows0.len(),
                    self.rows@.len() == rows0.len() - (k - sy),
                    self@.rows == rows0.take(sy + 1) + rows0.skip(k + 1),
                    self@.filename == old(self)@.filename,
                    self@.dirty == old(self)@.dirty,
                    rows0 == old(self)@.rows,
                decreases ey - k,
            {
                let ghost before = self@.rows;
                self.rows.remove(sy + 1);
                k += 1;
                proof {
                    assert(self@.rows =~= before.remove(sy + 1));
                    assert(self@.rows =~= rows0.take(sy + 1) + rows0.skip(k + 1));
                }
            }
            self.set_row(sy, &joined);
            proof {
                assert(self@.rows =~= rows0.take(sy as int).push(joined@) + rows0.skip(ey + 1));
            }
        }
        self.dirty = true;
        (start.0, start.1)
    }

    /// Whether `insert_char(x, y, _)` may be called (its precondition).
    pub fn can_insert_char(&self, x: usize, y: usize) -> (b: bool)
        ensures
            b == insert_char_ok(self@, x, y),
    {
        if self.rows.len() == 0 {
            proof {
                assert(padded(self@.rows)[0] =~= Seq::<char>::empty());
            }
            if y == 0 {
                let empty: Vec<char> = Vec::new();
                return byte_to_char(&empty, x).is_some();
            }
            return true;
        }
        if y < self.rows.len() {
            let chars = chars_of(self.rows[y].as_str());
            byte_to_char(&chars, x).is_some()
        } else {
            true
        }
    }

    /// Whether `delete_char(x, y)` may be called (its precondition).
    pub fn can_delete_char(&self, x: usize, y: usize) -> (b: bool)
        ensures
            b == delete_char_ok(self@, x, y),
    {
        if y < self.rows.len() {
            let chars = chars_of(self.rows[y].as_str());
            match byte_to_char(&chars, x) {
                Some(k) => k < chars.len(),
                None => false,
            }
        } else {
            true
        }
    }

    /// Whether `insert_newline(x, y)` may be called (its precondition).
    pub fn can_insert_newline(&self, x: usize, y: usize) -> (b: bool)
        ensures
            b == insert_newline_ok(self@, x, y),
    {
        if y < self.rows.len() {
            let chars = chars_of(self.rows[y].as_str());
            byte_to_char(&chars, x).is_some()
        } else {
            true
        }
    }

    /// Whether `truncate(x, y)` may be called (its precondition).
    pub fn can_truncate(&self, x: usize, y: usize) -> (b: bool)
        ensures
            b == truncate_ok(self@, x, y),
    {
        if y < self.rows.len() {
            let chars = chars_of(self.rows[y].as_str());
            match byte_to_char(&chars, x) {
                Some(_) => true,
                None => !within_bytes(&chars, x),
            }
        } else {
            true
        }
    }

    /// The chars of `v` from column `n` on (none when `n` is past the end).
    fn tail_from(v: &Vec<char>, n: usize) -> (t: Vec<char>)
        ensures
            t@ == skip_chars(v@, n as int),
    {
        let mut t: Vec<char> = Vec::new();
        let mut i = n;
        while i < v.len()
            invariant
                n <= i,
                n < v@.len() ==> i <= v@.len() && t@ == v@.subrange(n as int, i as int),
                n >= v@.len() ==> i == n && t@.len() == 0,
            decreases v.len() - i,
        {
            t.push(v[i]);
            i += 1;
            proof {
                assert(t@ =~= v@.subrange(n as int, i as int));
            }
        }
        proof {
            if n < v@.len() {
                assert(t@ =~= skip_chars(v@, n as int));
            } else {
                assert(t@ =~= skip_chars(v@, n as int));
            }
        }
        t
    }

    /// The first `n` chars of `v` (all of them when shorter).
    fn head_to(v: &Vec<char>, n: usize) -> (h: Vec<char>)
        ensures
            h@ == take_chars(v@, n as int),
    {
        let mut h: Vec<char> = Vec::new();
        let mut i: usize = 0;
        while i < n && i < v.len()
            invariant
                i <= v@.len(),
                i <= n,
                h@ == v@.take(i as int),
            decreases v.len() - i,
        {
            h.push(v[i]);
            i += 1;
            proof {
                assert(h@ =~= v@.take(i as int));
            }
        }
        proof {
            assert(h@ =~= take_chars(v@, n as int));
        }
        h
    }

    /// The text between `from` and `to` (in either order), as `delete_range`
    /// would remove it: its lines joined with `'\n'`.
    pub fn text_in_range(&self, from: (usize, usize), to: (usize, usize)) -> (s: String)
        ensures
            s@ == text_between(self@.rows, from, to),
    {
        let (start, end) = if from.1 < to.1 || (from.1 == to.1 && from.0 <= to.0) {
            (from, to)
        } else {
            (to, from)
        };
        let (sx, sy) = (start.0, start.1);
        let (ex, ey) = (end.0, end.1);
        let ghost rows = self@.rows;
        let mut out = String::new();
        if sy == ey {
            if sy < self.rows.len() {
                let chars = chars_of(self.rows[sy].as_str());
                let head = Self::head_to(&chars, ex);
                let part = Self::tail_from(&head, sx);
                push_chars(&mut out, &part);
                proof {
                    assert(out@ =~= removed_text(rows, start, end));
                }
            } else {
                proof {
                    assert(out@ =~= removed_text(rows, start, end));
                }
            }
        } else if ey < self.rows.len() {
            let first = chars_of(self.rows[sy].as_str());
            let part = Self::tail_from(&first, sx);
            push_chars(&mut out, &part);
            let ghost mut list: Seq<Seq<char>> = seq![part@];
            proof {
                assert(join_lines(list) == part@);
                assert(out@ =~= part@);
            }
            let mut k = sy + 1;
            while k < ey
                invariant
                    sy < k <= ey < rows.len(),
                    rows == self@.rows,
                    list == seq![skip_chars(rows[sy as int], sx as int)] + rows.subrange(sy + 1, k as int),
                    out@ == join_lines(list),
                decreases ey - k,
            {
                let row = chars_of(self.rows[k].as_str());
                let nl = vec!['\n'];
                push_chars(&mut out, &nl);
                push_chars(&mut out, &row);
                proof {
                    lemma_join_push(list, row@);
                    list = list.push(row@);
                    assert(list =~= seq![skip_chars(rows[sy as int], sx as int)] + rows.subrange(sy + 1, k + 1));
                    assert(out@ =~= join_lines(list));
                }
                k += 1;
            }
            let last = chars_of(self.rows[ey].as_str());
            let tail = Self::head_to(&last, ex);
            let nl = vec!['\n'];
            push_chars(&mut out, &nl);
            push_chars(&mut out, &tail);
            proof {
                lemma_join_push(list, tail@);
                assert(out@ =~= join_lines(list.push(tail@)));
                assert(list.push(tail@) =~= seq![skip_chars(rows[sy as int], sx as int)] + rows.subrange(sy + 1, ey as int) + seq![take_chars(rows[ey as int], ex as int)]);
            }
        } else {
            proof {
                assert(out@ =~= removed_text(rows, start, end));
            }
        }
        out
    }

    /// Lines `from` up to (not including) `to`, joined with `'\n'`.
    pub fn lines_text(&self, from: usize, to: usize) -> (s: String)
        requires
            from <= to <= self@.rows.len(),
        ensures
            s@ == join_lines(self@.rows.subrange(from as int, to as int)),
    {
        let ghost rows = self@.rows;
        let mut out = String::new();
        if from == to {
            proof {
                assert(rows.subrange(from as int, to as int) =~= Seq::<Seq<char>>::empty());
            }
            return out;
        }
        let first = chars_of(self.rows[from].as_str());
        push_chars(&mut out, &first);
        proof {
            assert(out@ =~= first@);
            assert(rows.subrange(from as int, from + 1) =~= seq![rows[from as int]]);
        }
        let mut k = from + 1;
        while k < to
            invariant
                from < k <= to <= rows.len(),
                rows == self@.rows,
                out@ == join_lines(rows.subrange(from as int, k as int)),
            decreases to - k,
        {
            let row = chars_of(self.rows[k].as_str());
            let nl = vec!['\n'];
            push_chars(&mut out, &nl);
            push_chars(&mut out, &row);
            proof {
                lemma_join_push(rows.subrange(from as int, k as int), row@);
                assert(rows.subrange(from as int, k as int).push(row@) =~= rows.subrange(from as int, k + 1));
                assert(out@ =~= join_lines(rows.subrange(from as int, k + 1)));
            }
            k += 1;
        }
        out
    }
}

} // verus!
