//! Word motions (`w`, `e`, `b` and their big-word variants `W`, `E`, `B`).
//! Columns count chars, except where a motion steps back onto an earlier line:
//! there it starts from the line's length in bytes, as `line_len` gives it.
use vstd::prelude::*;

use super::{Document, row_or_empty};
use crate::text::{byte_len, char_class, is_alphanumeric, is_whitespace};

verus! {

/// `p` starts a word of `s`: a non-blank char whose class differs from the one before it.
pub open spec fn is_word_start(s: Seq<char>, p: int, big: bool) -> bool {
    &&& 0 <= p < s.len()
    &&& char_class(s[p], big) != 0
    &&& (p == 0 || char_class(s[p - 1], big) != char_class(s[p], big))
}

/// `p` ends a word of `s`: a non-blank char whose class differs from the one after it.
pub open spec fn is_word_end(s: Seq<char>, p: int, big: bool) -> bool {
    &&& 0 <= p < s.len()
    &&& char_class(s[p], big) != 0
    &&& (p + 1 == s.len() || char_class(s[p + 1], big) != char_class(s[p], big))
}

/// The last column of a line of `n` chars (0 for an empty line).
pub open spec fn last_col(n: int) -> int {
    if n > 0 {
        n - 1
    } else {
        0
    }
}

/// First column `e` searches on line `z`, when starting from `(x, y)`.
pub open spec fn end_search_col(z: int, x: int, y: int) -> int {
    if z == y {
        x + 1
    } else {
        0
    }
}

/// `(p, z)` is a word end that `e` from `(x, y)` can reach.
pub open spec fn end_in_reach(rows: Seq<Seq<char>>, x: int, y: int, z: int, p: int, big: bool) -> bool {
    &&& y <= z < rows.len()
    &&& end_search_col(z, x, y) <= p
    &&& is_word_end(rows[z], p, big)
}

/// The column before which `b` from `(x, y)` searches line `z`: `x` on the
/// cursor line, the line's byte length on the lines above.
pub open spec fn start_search_limit(rows: Seq<Seq<char>>, x: int, y: int, z: int) -> int {
    if z == y {
        x
    } else {
        (byte_len(row_or_empty(rows, z)) as usize) as int
    }
}

/// `(p, z)` is a word start that `b` from `(x, y)` can reach.
pub open spec fn start_in_reach(rows: Seq<Seq<char>>, x: int, y: int, z: int, p: int, big: bool) -> bool {
    &&& 0 <= z <= y
    &&& z < rows.len()
    &&& p < start_search_limit(rows, x, y, z)
    &&& is_word_start(rows[z], p, big)
}

/// No word start that `b` from `(x, y)` can reach lies on a line below `z`.
pub open spec fn start_none_below(rows: Seq<Seq<char>>, x: int, y: int, z: int, big: bool) -> bool {
    forall|w: int, p: int| z < w && #[trigger] start_in_reach(rows, x, y, w, p, big) ==> false
}

/// `b` from `(x, y)` never indexes past the end of a line it scans: every line
/// it reaches has at least as many chars as its search limit.
pub open spec fn start_search_in_bounds(rows: Seq<Seq<char>>, x: int, y: int, big: bool) -> bool {
    (y >= rows.len() && x > 0) || forall|z: int|
        0 <= z <= y && z < rows.len() && start_none_below(rows, x, y, z, big)
            ==> #[trigger] start_search_limit(rows, x, y, z) <= rows[z].len()
}

/// The first word start of `s` after column `x` (meaningful when there is one).
pub open spec fn first_start_after(s: Seq<char>, x: int, big: bool) -> int {
    choose|p: int| x < p && is_word_start(s, p, big) && forall|q: int| x < q < p ==> !#[trigger] is_word_start(s, q, big)
}

/// Where `w` moves from `(x, y)`: the next word start on the line; with none,
/// the start of the next line, or the last column of the last line. A missing
/// line leaves the position as it is.
pub open spec fn next_word_target(rows: Seq<Seq<char>>, x: usize, y: usize, big: bool) -> (usize, usize) {
    if y >= rows.len() {
        (x, y)
    } else if exists|p: int| x < p && #[trigger] is_word_start(rows[y as int], p, big) {
        (first_start_after(rows[y as int], x as int, big) as usize, y)
    } else if y + 1 < rows.len() {
        (0usize, (y + 1) as usize)
    } else {
        (last_col(rows[y as int].len() as int) as usize, y)
    }
}

/// The first word end, in reading order, that `e` from `(x, y)` can reach
/// (meaningful when there is one): `(column, line)`.
pub open spec fn first_end_in_reach(rows: Seq<Seq<char>>, x: int, y: int, big: bool) -> (int, int) {
    let (z, p) = choose|z: int, p: int| end_in_reach(rows, x, y, z, p, big) && forall|z2: int, p2: int|
        #[trigger] end_in_reach(rows, x, y, z2, p2, big) ==> (z < z2 || (z == z2 && p <= p2));
    (p, z)
}

/// Where `e` moves from `(x, y)`: the first word end after the cursor; with
/// none, the last column of the last line. A missing line leaves the position
/// as it is.
pub open spec fn next_word_end_target(rows: Seq<Seq<char>>, x: usize, y: usize, big: bool) -> (usize, usize) {
    if y >= rows.len() {
        (x, y)
    } else if exists|z: int, p: int| #[trigger] end_in_reach(rows, x as int, y as int, z, p, big) {
        let (p, z) = first_end_in_reach(rows, x as int, y as int, big);
        (p as usize, z as usize)
    } else {
        (last_col(rows.last().len() as int) as usize, (rows.len() - 1) as usize)
    }
}

/// The last word start, in reading order, that `b` from `(x, y)` can reach
/// (meaningful when there is one): `(column, line)`.
pub open spec fn last_start_in_reach(rows: Seq<Seq<char>>, x: int, y: int, big: bool) -> (int, int) {
    let (z, p) = choose|z: int, p: int| start_in_reach(rows, x, y, z, p, big) && forall|z2: int, p2: int|
        #[trigger] start_in_reach(rows, x, y, z2, p2, big) ==> (z2 < z || (z2 == z && p2 <= p));
    (p, z)
}

/// Where `b` moves from `(x, y)`: the last word start before the cursor; with
/// none, `(0, 0)`. A missing line leaves the position as it is when `x > 0`.
pub open spec fn previous_word_target(rows: Seq<Seq<char>>, x: usize, y: usize, big: bool) -> (usize, usize) {
    if y >= rows.len() && x > 0 {
        (x, y)
    } else if exists|z: int, p: int| #[trigger] start_in_reach(rows, x as int, y as int, z, p, big) {
        let (p, z) = last_start_in_reach(rows, x as int, y as int, big);
        (p as usize, z as usize)
    } else {
        (0usize, 0usize)
    }
}

/// A word end that comes first among those in reach is the one `first_end_in_reach` picks.
pub proof fn lemma_first_end_unique(rows: Seq<Seq<char>>, x: int, y: int, big: bool, z: int, p: int)
    requires
        end_in_reach(rows, x, y, z, p, big),
        forall|z2: int, p2: int| #[trigger] end_in_reach(rows, x, y, z2, p2, big) ==> (z < z2 || (z == z2 && p <= p2)),
    ensures
        first_end_in_reach(rows, x, y, big) == (p, z),
{
    let (cp, cz) = first_end_in_reach(rows, x, y, big);
    assert(end_in_reach(rows, x, y, cz, cp, big));
}

/// A word start that comes last among those in reach is the one `last_start_in_reach` picks.
pub proof fn lemma_last_start_unique(rows: Seq<Seq<char>>, x: int, y: int, big: bool, z: int, p: int)
    requires
        start_in_reach(rows, x, y, z, p, big),
        forall|z2: int, p2: int| #[trigger] start_in_reach(rows, x, y, z2, p2, big) ==> (z2 < z || (z2 == z && p2 <= p)),
    ensures
        last_start_in_reach(rows, x, y, big) == (p, z),
{
    let (cp, cz) = last_start_in_reach(rows, x, y, big);
    assert(start_in_reach(rows, x, y, cz, cp, big));
}

impl Document {
    /// The class of `c` for word motions: 0 blank, 1 word, 2 punctuation
    /// (with `big`, every non-blank is a word char).
    fn class_of(&self, c: char, big: bool) -> (r: u8)
        ensures
            r == char_class(c, big),
    {
        if is_whitespace(c) {
            0
        } else if !big && !(is_alphanumeric(c) || c == '_') {
            2
        } else {
            1
        }
    }

    /// Start of the next word after `(x, y)` on the same line (`w`); with none
    /// there, the start of the next line, or the last column of the last line.
    /// A missing line leaves the position as it is.
    pub fn next_word(&self, x: usize, y: usize, big: bool) -> (r: (usize, usize))
        ensures
            r == next_word_target(self@.rows, x, y, big),
            y >= self@.rows.len() ==> r == (x, y),
            y < self@.rows.len() ==> {
                let s = self@.rows[y as int];
                if exists|p: int| x < p && #[trigger] is_word_start(s, p, big) {
                    &&& r.1 == y
                    &&& x < r.0
                    &&& is_word_start(s, r.0 as int, big)
                    &&& forall|p: int| x < p < r.0 ==> !#[trigger] is_word_start(s, p, big)
                } else if y + 1 < self@.rows.len() {
                    r == (0usize, (y + 1) as usize)
                } else {
                    r == (last_col(s.len() as int) as usize, y)
                }
            },
    {
        if y >= self.rows.len() {
            return (x, y);
        }
        let chars = self.row_chars(y);
        let ghost s = chars@;
        let n = chars.len();
        let mut i = x;

        if i < n {
            let cls = self.class_of(chars[i], big);
            if cls != 0 {
                while i < n && self.class_of(chars[i], big) == cls
                    invariant
                        x <= i <= n,
                        n == s.len(),
                        chars@ == s,
                        x < n,
                        cls == char_class(s[x as int], big),
                        forall|j: int| x <= j < i ==> char_class(s[j], big) == cls,
                    decreases n - i,
                {
                    i += 1;
                }
            }
            let i1 = i;
            while i < n && self.class_of(chars[i], big) == 0
                invariant
                    i1 <= i <= n,
                    n == s.len(),
                    chars@ == s,
                    forall|j: int| i1 <= j < i ==> char_class(s[j], big) == 0,
                decreases n - i,
            {
                i += 1;
            }
            proof {
                assert forall|p: int| x < p < i implies !#[trigger] is_word_start(s, p, big) by {
                    if p < i1 {
                        assert(char_class(s[p - 1], big) == cls);
                    }
                }
                if i < n {
                    if i == i1 {
                        assert(i1 > x);
                    }
                    assert(is_word_start(s, i as int, big));
                    let c = first_start_after(s, x as int, big);
                    assert(x < i && is_word_start(s, i as int, big) && forall|q: int| x < q < i ==> !#[trigger] is_word_start(s, q, big));
                    if c < i {
                        assert(!is_word_start(s, c, big));
                    }
                    assert(c == i);
                } else {
                    assert forall|p: int| x < p implies !#[trigger] is_word_start(s, p, big) by {}
                }
            }
        } else {
            proof {
                assert forall|p: int| x < p implies !#[trigger] is_word_start(s, p, big) by {}
            }
        }

        if i >= n {
            let last = if self.rows.len() > 0 { self.rows.len() - 1 } else { 0 };
            if y < last {
                return (0, y + 1);
            }
            return (if n > 0 { n - 1 } else { 0 }, y);
        }
        (i, y)
    }

    /// End of the next word after `(x, y)` (`e`), searching on from `x + 1` and
    /// then through the following lines; with none, the last column of the last
    /// line. A missing line leaves the position as it is.
    #[verifier::spinoff_prover]
    #[verifier::rlimit(40)]
    pub fn next_word_end(&self, x: usize, y: usize, big: bool) -> (r: (usize, usize))
        requires
            x < usize::MAX,
        ensures
            r == next_word_end_target(self@.rows, x, y, big),
            y >= self@.rows.len() ==> r == (x, y),
            y < self@.rows.len() ==> {
                let rows = self@.rows;
                if exists|z: int, p: int| #[trigger] end_in_reach(rows, x as int, y as int, z, p, big) {
                    &&& end_in_reach(rows, x as int, y as int, r.1 as int, r.0 as int, big)
                    &&& forall|z: int, p: int| #[trigger] end_in_reach(rows, x as int, y as int, z, p, big)
                        ==> (r.1 < z || (r.1 == z && r.0 <= p))
                } else {
                    r == (last_col(rows.last().len() as int) as usize, (rows.len() - 1) as usize)
                }
            },
    {
        if y >= self.rows.len() {
            return (x, y);
        }
        let ghost rows = self@.rows;
        let mut yy = y;
        let mut i = x + 1;
        loop
            invariant
                rows == self@.rows,
                y <= yy < rows.len(),
                i as int == end_search_col(yy as int, x as int, y as int),
                forall|z: int, p: int| z < yy && #[trigger] end_in_reach(rows, x as int, y as int, z, p, big) ==> false,
            decreases rows.len() - yy,
        {
            let chars = self.row_chars(yy);
            let ghost s = chars@;
            let n = chars.len();
            let i0 = i;
            while i < n && self.class_of(chars[i], big) == 0
                invariant
                    i0 <= i,
                    i0 < n ==> i <= n,
                    n == s.len(),
                    chars@ == s,
                    forall|j: int| i0 <= j < i ==> char_class(s[j], big) == 0,
                decreases n - i,
            {
                i += 1;
            }
            if i < n {
                let cls = self.class_of(chars[i], big);
                let i1 = i;
                while i + 1 < n && self.class_of(chars[i + 1], big) == cls
                    invariant
                        i1 <= i < n,
                        n == s.len(),
                        chars@ == s,
                        cls == char_class(s[i1 as int], big),
                        cls != 0,
                        forall|j: int| i1 <= j <= i ==> char_class(s[j], big) == cls,
                    decreases n - i,
                {
                    i += 1;
                }
                proof {
                    assert(is_word_end(s, i as int, big));
                    assert(end_in_reach(rows, x as int, y as int, yy as int, i as int, big));
                    assert forall|z: int, p: int| #[trigger] end_in_reach(rows, x as int, y as int, z, p, big)
                        implies (yy < z || (yy == z && i <= p)) by {
                        if z == yy && p < i {
                            if p < i1 {
                                assert(char_class(s[p], big) == 0);
                            } else {
                                assert(char_class(s[p + 1], big) == cls);
                            }
                        }
                    }
                    lemma_first_end_unique(rows, x as int, y as int, big, yy as int, i as int);
                }
                return (i, yy);
            }
            proof {
                assert forall|p: int| #[trigger] end_in_reach(rows, x as int, y as int, yy as int, p, big) implies false by {
                    assert(char_class(s[p], big) == 0);
                }
            }
            if yy >= self.rows.len() - 1 {
                proof {
                    assert forall|z: int, p: int| #[trigger] end_in_reach(rows, x as int, y as int, z, p, big) implies false by {
                        assert(z <= yy);
                    }
                }
                return (if n > 0 { n - 1 } else { 0 }, yy);
            }
            yy += 1;
            i = 0;
        }
    }

    /// Start of the previous word before `(x, y)` (`b`), searching back from
    /// column `x` and then through the lines above, each from its byte length;
    /// with none, `(0, 0)`. A missing line leaves the position as it is when
    /// `x > 0`.
    #[verifier::spinoff_prover]
    #[verifier::rlimit(40)]
    pub fn previous_word(&self, x: usize, y: usize, big: bool) -> (r: (usize, usize))
        requires
            start_search_in_bounds(self@.rows, x as int, y as int, big),
        ensures
            r == previous_word_target(self@.rows, x, y, big),
            (y >= self@.rows.len() && x > 0) ==> r == (x, y),
            !(y >= self@.rows.len() && x > 0) ==> {
                let rows = self@.rows;
                if exists|z: int, p: int| #[trigger] start_in_reach(rows, x as int, y as int, z, p, big) {
                    &&& start_in_reach(rows, x as int, y as int, r.1 as int, r.0 as int, big)
                    &&& forall|z: int, p: int| #[trigger] start_in_reach(rows, x as int, y as int, z, p, big)
                        ==> (z < r.1 || (z == r.1 && p <= r.0))
                } else {
                    r == (0usize, 0usize)
                }
            },
    {
        let ghost rows = self@.rows;
        let mut yy = y;
        let mut i = x;

        loop
            invariant
                rows == self@.rows,
                start_search_in_bounds(rows, x as int, y as int, big),
                yy <= y,
                yy >= rows.len() && i > 0 ==> yy == y && i == x,
                (y >= rows.len() && x > 0) ==> (yy == y && i == x),
                i <= start_search_limit(rows, x as int, y as int, yy as int),
                start_none_below(rows, x as int, y as int, yy as int, big),
                forall|p: int| i <= p && #[trigger] start_in_reach(rows, x as int, y as int, yy as int, p, big) ==> false,
            decreases yy, i,
        {
            if i == 0 {
                if yy == 0 {
                    proof {
                        assert forall|z: int, p: int| #[trigger] start_in_reach(rows, x as int, y as int, z, p, big) implies false by {
                            if z > 0 {
                            } else {
                                assert(0 <= p);
                            }
                        }
                    }
                    return (0, 0);
                }
                yy -= 1;
                i = self.line_len(yy);
                proof {
                    assert forall|w: int, p: int| yy < w && #[trigger] start_in_reach(rows, x as int, y as int, w, p, big) implies false by {
                        if w == yy + 1 {
                            assert(0 <= p);
                        }
                    }
                }
                continue;
            }
            if yy >= self.rows.len() {
                return (x, yy);
            }
            let chars = self.row_chars(yy);
            let ghost s = chars@;
            proof {
                assert(start_search_limit(rows, x as int, y as int, yy as int) <= s.len());
            }
            let top = i;
            i -= 1;
            while i > 0 && self.class_of(chars[i], big) == 0
                invariant
                    i < top <= s.len(),
                    chars@ == s,
                    forall|j: int| i < j < top ==> char_class(s[j], big) == 0,
                decreases i,
            {
                i -= 1;
            }
            if self.class_of(chars[i], big) == 0 {
                proof {
                    assert forall|p: int| 0 <= p && #[trigger] start_in_reach(rows, x as int, y as int, yy as int, p, big) implies false by {
                        if p < top {
                            assert(char_class(s[p], big) == 0);
                        }
                    }
                }
                i = 0;
                continue;
            }
            let cls = self.class_of(chars[i], big);
            let i1 = i;
            while i > 0 && self.class_of(chars[i - 1], big) == cls
                invariant
                    i <= i1 < top <= s.len(),
                    chars@ == s,
                    cls == char_class(s[i1 as int], big),
                    cls != 0,
                    forall|j: int| i <= j <= i1 ==> char_class(s[j], big) == cls,
                decreases i,
            {
                i -= 1;
            }
            proof {
                assert(is_word_start(s, i as int, big));
                assert(start_in_reach(rows, x as int, y as int, yy as int, i as int, big));
                assert forall|z: int, p: int| #[trigger] start_in_reach(rows, x as int, y as int, z, p, big)
                    implies (z < yy || (z == yy && p <= i)) by {
                    if z == yy && p > i {
                        if p <= i1 {
                            assert(char_class(s[p - 1], big) == cls);
                        } else if p < top {
                            assert(char_class(s[p], big) == 0);
                        }
                    }
                }
                lemma_last_start_unique(rows, x as int, y as int, big, yy as int, i as int);
            }
            return (i, yy);
        }
    }

    /// Whether `previous_word(x, y, big)` stays within every line it scans
    /// (its precondition).
    #[verifier::spinoff_prover]
    #[verifier::rlimit(40)]
    pub fn previous_word_in_bounds(&self, x: usize, y: usize, big: bool) -> (b: bool)
        ensures
            b == start_search_in_bounds(self@.rows, x as int, y as int, big),
    {
        let ghost rows = self@.rows;
        if y >= self.rows.len() && x > 0 {
            return true;
        }
        let mut yy = y;
        let mut i = x;
        loop
            invariant
                rows == self@.rows,
                !(y >= rows.len() && x > 0),
                yy <= y,
                yy >= rows.len() ==> i == 0,
                i == 0 || i == start_search_limit(rows, x as int, y as int, yy as int),
                start_none_below(rows, x as int, y as int, yy as int, big),
                forall|p: int| i <= p && #[trigger] start_in_reach(rows, x as int, y as int, yy as int, p, big) ==> false,
                forall|z: int| yy < z <= y && z < rows.len() ==> #[trigger] start_search_limit(rows, x as int, y as int, z) <= rows[z].len(),
                i == 0 && yy < rows.len() ==> start_search_limit(rows, x as int, y as int, yy as int) <= rows[yy as int].len(),
            decreases yy, i,
        {
            if i == 0 {
                if yy == 0 {
                    return true;
                }
                yy -= 1;
                i = self.line_len(yy);
                proof {
                    assert forall|w: int, p: int| yy < w && #[trigger] start_in_reach(rows, x as int, y as int, w, p, big) implies false by {
                        if w == yy + 1 {
                            assert(0 <= p);
                        }
                    }
                }
                continue;
            }
            let chars = self.row_chars(yy);
            let ghost s = chars@;
            if i > chars.len() {
                return false;
            }
            let top = i;
            i -= 1;
            while i > 0 && self.class_of(chars[i], big) == 0
                invariant
                    i < top <= s.len(),
                    chars@ == s,
                    forall|j: int| i < j < top ==> char_class(s[j], big) == 0,
                decreases i,
            {
                i -= 1;
            }
            if self.class_of(chars[i], big) == 0 {
                proof {
                    assert forall|p: int| 0 <= p && #[trigger] start_in_reach(rows, x as int, y as int, yy as int, p, big) implies false by {
                        if p < top {
                            assert(char_class(s[p], big) == 0);
                        }
                    }
                }
                i = 0;
                continue;
            }
            let cls = self.class_of(chars[i], big);
            while i > 0 && self.class_of(chars[i - 1], big) == cls
                invariant
                    i < top <= s.len(),
                    chars@ == s,
                    cls == char_class(s[i as int], big),
                    cls != 0,
                decreases i,
            {
                i -= 1;
            }
            proof {
                assert(is_word_start(s, i as int, big));
                assert(start_in_reach(rows, x as int, y as int, yy as int, i as int, big));
            }
            return true;
        }
    }
}

} // verus!
