//! Searching a document: forward and backward pattern search, wrapping around
//! the document, and the word under the cursor. Columns count chars.
use vstd::prelude::*;

use super::Document;
use crate::text::{chars_of, is_word_char, string_of_range, word_char};

verus! {

/// `pat` occurs in `s` starting at char `i`.
pub open spec fn matches_at(s: Seq<char>, pat: Seq<char>, i: int) -> bool {
    0 <= i && i + pat.len() <= s.len() && s.subrange(i, i + pat.len()) == pat
}

/// Whether `pat` occurs in `chars` at `i` (which must leave room for it).
fn match_here(chars: &[char], pat: &[char], i: usize) -> (b: bool)
    requires
        i + pat@.len() <= chars@.len(),
        chars@.len() <= usize::MAX,
    ensures
        b == matches_at(chars@, pat@, i as int),
{
    let mut k: usize = 0;
    while k < pat.len()
        invariant
            k <= pat@.len(),
            i + pat@.len() <= chars@.len(),
            chars@.len() <= usize::MAX,
            forall|j: int| 0 <= j < k ==> chars@[i + j] == pat@[j],
        decreases pat.len() - k,
    {
        if chars[i + k] != pat[k] {
            proof {
                assert(chars@.subrange(i as int, i + pat@.len())[k as int] != pat@[k as int]);
            }
            return false;
        }
        k += 1;
    }
    proof {
        assert(chars@.subrange(i as int, i + pat@.len()) =~= pat@);
    }
    true
}

/// Index of the first match of `pat` in `chars` at or after `start`.
/// An empty pattern, or one longer than `chars`, matches nowhere.
pub fn find_in_row(chars: &[char], pat: &[char], start: usize) -> (r: Option<usize>)
    requires
        0 < pat@.len() <= chars@.len() ==> start + pat@.len() <= usize::MAX,
    ensures
        (pat@.len() == 0 || pat@.len() > chars@.len()) ==> r is None,
        r matches Some(i) ==> start <= i && matches_at(chars@, pat@, i as int) && forall|j: int|
            start <= j < i ==> !#[trigger] matches_at(chars@, pat@, j),
        r is None && pat@.len() > 0 ==> forall|j: int| start <= j ==> !#[trigger] matches_at(chars@, pat@, j),
{
    if pat.len() == 0 || pat.len() > chars.len() {
        return None;
    }
    let last = chars.len() - pat.len();
    let mut i = start;
    while i <= last
        invariant
            start <= i,
            0 < pat@.len() <= chars@.len(),
            chars@.len() <= usize::MAX,
            last == chars@.len() - pat@.len(),
            forall|j: int| start <= j < i ==> !#[trigger] matches_at(chars@, pat@, j),
        decreases chars@.len() - i,
    {
        if match_here(chars, pat, i) {
            return Some(i);
        }
        i += 1;
    }
    None
}

/// Index of the last match of `pat` in `chars` that starts before `before`.
/// An empty pattern, or one longer than `chars`, matches nowhere.
pub fn rfind_in_row(chars: &[char], pat: &[char], before: usize) -> (r: Option<usize>)
    ensures
        (pat@.len() == 0 || pat@.len() > chars@.len()) ==> r is None,
        r matches Some(i) ==> i < before && matches_at(chars@, pat@, i as int) && forall|j: int|
            i < j < before ==> !#[trigger] matches_at(chars@, pat@, j),
        r is None && pat@.len() > 0 ==> forall|j: int| j < before ==> !#[trigger] matches_at(chars@, pat@, j),
{
    if pat.len() == 0 || pat.len() > chars.len() || before == 0 {
        return None;
    }
    let room = chars.len() - pat.len();
    let max_start = if room < before - 1 { room } else { before - 1 };
    let mut start = max_start;
    loop
        invariant
            0 < pat@.len() <= chars@.len(),
            start <= max_start,
            max_start == (if room < before - 1 { room } else { (before - 1) as usize }),
            room == chars@.len() - pat@.len(),
            chars@.len() <= usize::MAX,
            0 < before,
            forall|j: int| start < j < before ==> !#[trigger] matches_at(chars@, pat@, j),
        decreases start,
    {
        if match_here(chars, pat, start) {
            return Some(start);
        }
        if start == 0 {
            return None;
        }
        start -= 1;
    }
}

/// Row scanned at step `i` of a forward search from row `fy` of `n` rows.
pub open spec fn fwd_row(n: int, fy: int, i: int) -> int {
    (fy + i) % n
}

/// First column scanned at step `i` of a forward search from column `fx`:
/// strictly after the cursor on the starting row, from the start afterwards
/// (including when the search has wrapped back to the starting row).
pub open spec fn fwd_start(fx: int, i: int) -> int {
    if i == 0 {
        fx + 1
    } else {
        0
    }
}

/// Step `i` of a forward search from `(fx, fy)` finds `pat` at column `x`.
pub open spec fn fwd_hit_at(rows: Seq<Seq<char>>, pat: Seq<char>, fx: int, fy: int, i: int, x: int) -> bool {
    fwd_start(fx, i) <= x && matches_at(rows[fwd_row(rows.len() as int, fy, i)], pat, x)
}

/// Step `i` of a forward search from `(fx, fy)` finds `pat`.
pub open spec fn fwd_hit(rows: Seq<Seq<char>>, pat: Seq<char>, fx: int, fy: int, i: int) -> bool {
    exists|x: int| fwd_hit_at(rows, pat, fx, fy, i, x)
}

/// No step of a forward search before step `i` finds `pat`.
pub open spec fn fwd_none_before(rows: Seq<Seq<char>>, pat: Seq<char>, fx: int, fy: int, i: int) -> bool {
    forall|j: int| 0 <= j < i ==> !#[trigger] fwd_hit(rows, pat, fx, fy, j)
}

/// Step `i` is the first step of a forward search from `(fx, fy)` that finds
/// `pat`, and `x` is the first column where it does.
pub open spec fn fwd_first_hit(rows: Seq<Seq<char>>, pat: Seq<char>, fx: int, fy: int, i: int, x: int) -> bool {
    &&& 0 <= i <= rows.len()
    &&& fwd_hit_at(rows, pat, fx, fy, i, x)
    &&& fwd_none_before(rows, pat, fx, fy, i)
    &&& forall|x2: int| fwd_start(fx, i) <= x2 < x ==> !#[trigger] matches_at(
        rows[fwd_row(rows.len() as int, fy, i)],
        pat,
        x2,
    )
}

/// The row number wrapped to a signed machine integer, as `fy as isize` reads it.
pub open spec fn signed_row(fy: int) -> int {
    if fy <= isize::MAX {
        fy
    } else {
        fy - (usize::MAX + 1)
    }
}

/// Row scanned at step `i` of a backward search from row `fy` of `n` rows.
pub open spec fn bwd_row(n: int, fy: int, i: int) -> int {
    (signed_row(fy) - i) % n
}

/// Columns scanned at step `i` of a backward search from column `fx` lie
/// before this one: the cursor column on the starting row, the whole row afterwards.
pub open spec fn bwd_before(rows: Seq<Seq<char>>, fx: int, fy: int, i: int) -> int {
    if i == 0 {
        fx
    } else {
        rows[bwd_row(rows.len() as int, fy, i)].len() as int
    }
}

/// Step `i` of a backward search from `(fx, fy)` finds `pat` at column `x`.
pub open spec fn bwd_hit_at(rows: Seq<Seq<char>>, pat: Seq<char>, fx: int, fy: int, i: int, x: int) -> bool {
    x < bwd_before(rows, fx, fy, i) && matches_at(rows[bwd_row(rows.len() as int, fy, i)], pat, x)
}

/// Step `i` of a backward search from `(fx, fy)` finds `pat`.
pub open spec fn bwd_hit(rows: Seq<Seq<char>>, pat: Seq<char>, fx: int, fy: int, i: int) -> bool {
    exists|x: int| bwd_hit_at(rows, pat, fx, fy, i, x)
}

/// No step of a backward search before step `i` finds `pat`.
pub open spec fn bwd_none_before(rows: Seq<Seq<char>>, pat: Seq<char>, fx: int, fy: int, i: int) -> bool {
    forall|j: int| 0 <= j < i ==> !#[trigger] bwd_hit(rows, pat, fx, fy, j)
}

/// Step `i` is the first step of a backward search from `(fx, fy)` that finds
/// `pat`, and `x` is the last column (before the step's limit) where it does.
pub open spec fn bwd_last_hit(rows: Seq<Seq<char>>, pat: Seq<char>, fx: int, fy: int, i: int, x: int) -> bool {
    &&& 0 <= i <= rows.len()
    &&& bwd_hit_at(rows, pat, fx, fy, i, x)
    &&& bwd_none_before(rows, pat, fx, fy, i)
    &&& forall|x2: int| x < x2 < bwd_before(rows, fx, fy, i) ==> !#[trigger] matches_at(
        rows[bwd_row(rows.len() as int, fy, i)],
        pat,
        x2,
    )
}

/// The run of word chars of `s` around `x` is `[start, end]`.
pub open spec fn word_run(s: Seq<char>, x: int, start: int, end: int) -> bool {
    &&& 0 <= start <= x <= end < s.len()
    &&& forall|j: int| start <= j <= end ==> is_word_char(#[trigger] s[j])
    &&& (start == 0 || !is_word_char(s[start - 1]))
    &&& (end + 1 == s.len() || !is_word_char(s[end + 1]))
}

/// The row index `(signed_row(fy) - i) mod n`, computed without signed overflow.
fn back_row(fy: usize, i: usize, n: usize) -> (y: usize)
    requires
        0 < n <= isize::MAX,
        i <= n,
    ensures
        y == bwd_row(n as int, fy as int, i as int),
        y < n,
{
    if fy <= isize::MAX as usize {
        let a = fy % n;
        let b = i % n;
        let y = (a + n - b) % n;
        proof {
            vstd::arithmetic::div_mod::lemma_sub_mod_noop(fy as int, i as int, n as int);
            vstd::arithmetic::div_mod::lemma_mod_add_multiples_vanish(a - b, n as int);
        }
        y
    } else {
        let mag = usize::MAX - fy + 1;
        let m = (mag % n + i % n) % n;
        let y = (n - m) % n;
        proof {
            let t = mag + i;
            vstd::arithmetic::div_mod::lemma_add_mod_noop(mag as int, i as int, n as int);
            vstd::arithmetic::div_mod::lemma_sub_mod_noop(0, t, n as int);
            vstd::arithmetic::div_mod::lemma_mod_add_multiples_vanish(-m, n as int);
            assert(signed_row(fy as int) - i == 0 - t);
        }
        y
    }
}

impl Document {
    /// Next match of `pattern` after `from`, wrapping around the document: the
    /// rest of the starting row after the cursor, then the following rows, then
    /// back round to the starting row scanned from its start.
    #[verifier::spinoff_prover]
    pub fn find(&self, pattern: &str, from: (usize, usize)) -> (r: Option<(usize, usize)>)
        requires
            pattern@.len() > 0 && self@.rows.len() > 0 ==> {
                let rows = self@.rows;
                let n = rows.len() as int;
                &&& from.0 < usize::MAX
                &&& pattern@.len() <= rows[fwd_row(n, from.1 as int, 0)].len()
                    ==> from.0 + 1 + pattern@.len() <= usize::MAX
                &&& forall|i: int| 0 <= i <= n && fwd_none_before(rows, pattern@, from.0 as int, from.1 as int, i)
                    ==> #[trigger] (from.1 + i) <= usize::MAX
            },
        ensures
            (pattern@.len() == 0 || self@.rows.len() == 0) ==> r is None,
            pattern@.len() > 0 && self@.rows.len() > 0 ==> {
                let rows = self@.rows;
                let n = rows.len() as int;
                let fx = from.0 as int;
                let fy = from.1 as int;
                &&& forall|x: usize, y: usize| r == Some((x, y)) ==> exists|i: int|
                    #[trigger] fwd_first_hit(rows, pattern@, fx, fy, i, x as int) && y == fwd_row(n, fy, i)
                &&& r is None ==> forall|i: int| 0 <= i <= n ==> !#[trigger] fwd_hit(rows, pattern@, fx, fy, i)
            },
    {
        if pattern.is_empty() || self.rows.len() == 0 {
            return None;
        }
        let pat = chars_of(pattern);
        let n = self.rows.len();
        let (fx, fy) = from;
        let ghost rows = self@.rows;
        let mut i: usize = 0;
        loop
            invariant
                rows == self@.rows,
                n == rows.len(),
                n > 0,
                pat@ == pattern@,
                pat@.len() > 0,
                fx == from.0,
                fy == from.1,
                i <= n,
                fx < usize::MAX,
                pat@.len() <= rows[fwd_row(n as int, fy as int, 0)].len() ==> fx + 1 + pat@.len() <= usize::MAX,
                forall|k: int| 0 <= k <= n && fwd_none_before(rows, pat@, fx as int, fy as int, k)
                    ==> #[trigger] (fy + k) <= usize::MAX,
                fwd_none_before(rows, pat@, fx as int, fy as int, i as int),
            decreases n - i,
        {
            assert((fy + i) <= usize::MAX);
            let y = (fy + i) % n;
            let start = if i == 0 { fx + 1 } else { 0 };
            let chars = self.row_chars(y);
            proof {
                assert(y == fwd_row(n as int, fy as int, i as int));
                assert(start == fwd_start(fx as int, i as int));
                assert(pat@.len() <= pat.len());
            }
            match find_in_row(chars.as_slice(), pat.as_slice(), start) {
                Some(x) => {
                    proof {
                        assert(forall|xx: int| fwd_start(fx as int, i as int) <= xx < x ==> !#[trigger] matches_at(rows[y as int], pattern@, xx));
                        assert(fwd_first_hit(rows, pat@, fx as int, fy as int, i as int, x as int));
                    }
                    return Some((x, y));
                },
                None => {
                    proof {
                        assert(!fwd_hit(rows, pat@, fx as int, fy as int, i as int));
                        assert forall|j: int| 0 <= j < i + 1 implies !#[trigger] fwd_hit(rows, pat@, fx as int, fy as int, j) by {
                            if j < i {
                                assert(fwd_none_before(rows, pat@, fx as int, fy as int, i as int));
                            }
                        }
                    }
                },
            }
            if i == n {
                return None;
            }
            i += 1;
        }
    }

    /// Previous match of `pattern` before `from`, wrapping around the document:
    /// the starting row before the cursor, then the rows above, then back round
    /// from the last row to the starting row scanned whole.
    #[verifier::spinoff_prover]
    pub fn rfind(&self, pattern: &str, from: (usize, usize)) -> (r: Option<(usize, usize)>)
        requires
            pattern@.len() > 0 && self@.rows.len() > 0 ==> {
                let rows = self@.rows;
                let n = rows.len() as int;
                &&& n <= isize::MAX
                &&& forall|i: int| 0 <= i <= n && bwd_none_before(rows, pattern@, from.0 as int, from.1 as int, i)
                    ==> #[trigger] signed_row(from.1 as int) - i >= isize::MIN
            },
        ensures
            (pattern@.len() == 0 || self@.rows.len() == 0) ==> r is None,
            pattern@.len() > 0 && self@.rows.len() > 0 ==> {
                let rows = self@.rows;
                let n = rows.len() as int;
                let fx = from.0 as int;
                let fy = from.1 as int;
                &&& forall|x: usize, y: usize| r == Some((x, y)) ==> exists|i: int|
                    #[trigger] bwd_last_hit(rows, pattern@, fx, fy, i, x as int) && y == bwd_row(n, fy, i)
                &&& r is None ==> forall|i: int| 0 <= i <= n ==> !#[trigger] bwd_hit(rows, pattern@, fx, fy, i)
            },
    {
        if pattern.is_empty() || self.rows.len() == 0 {
            return None;
        }
        let pat = chars_of(pattern);
        let n = self.rows.len();
        let (fx, fy) = from;
        let ghost rows = self@.rows;
        let mut i: usize = 0;
        loop
            invariant
                rows == self@.rows,
                n == rows.len(),
                0 < n <= isize::MAX,
                pat@ == pattern@,
                pat@.len() > 0,
                fx == from.0,
                fy == from.1,
                i <= n,
                bwd_none_before(rows, pat@, fx as int, fy as int, i as int),
            decreases n - i,
        {
            let y = back_row(fy, i, n);
            let chars = self.row_chars(y);
            let before = if i == 0 { fx } else { chars.len() };
            match rfind_in_row(chars.as_slice(), pat.as_slice(), before) {
                Some(x) => {
                    proof {
                        assert(bwd_last_hit(rows, pat@, fx as int, fy as int, i as int, x as int));
                    }
                    return Some((x, y));
                },
                None => {
                    proof {
                        assert(!bwd_hit(rows, pat@, fx as int, fy as int, i as int));
                        assert forall|j: int| 0 <= j < i + 1 implies !#[trigger] bwd_hit(rows, pat@, fx as int, fy as int, j) by {
                            if j < i {
                                assert(bwd_none_before(rows, pat@, fx as int, fy as int, i as int));
                            }
                        }
                    }
                },
            }
            if i == n {
                return None;
            }
            i += 1;
        }
    }

    /// The word (alphanumeric + `_`) under `(x, y)`, if any: the whole run of
    /// word chars around column `x`.
    pub fn word_at(&self, x: usize, y: usize) -> (r: Option<String>)
        ensures
            (y >= self@.rows.len() || x >= self@.rows[y as int].len() || !is_word_char(
                self@.rows[y as int][x as int],
            )) ==> r is None,
            !(y >= self@.rows.len() || x >= self@.rows[y as int].len() || !is_word_char(
                self@.rows[y as int][x as int],
            )) ==> (r matches Some(w) && exists|start: int, end: int|
                #[trigger] word_run(self@.rows[y as int], x as int, start, end) && w@ == self@.rows[y as int].subrange(start, end + 1)),
    {
        if y >= self.rows.len() {
            return None;
        }
        let chars = self.row_chars(y);
        let ghost s = chars@;
        if x >= chars.len() || !word_char(chars[x]) {
            return None;
        }
        let mut start = x;
        while start > 0 && word_char(chars[start - 1])
            invariant
                start <= x < s.len(),
                chars@ == s,
                forall|j: int| start <= j <= x ==> is_word_char(#[trigger] s[j]),
            decreases start,
        {
            start -= 1;
        }
        let mut end = x;
        while end + 1 < chars.len() && word_char(chars[end + 1])
            invariant
                x <= end < s.len(),
                end < chars.len(),
                chars@ == s,
                forall|j: int| start <= j <= end ==> is_word_char(#[trigger] s[j]),
            decreases s.len() - end,
        {
            end += 1;
        }
        let w = string_of_range(&chars, start, end + 1);
        proof {
            assert(word_run(s, x as int, start as int, end as int));
        }
        Some(w)
    }
}

} // verus!
