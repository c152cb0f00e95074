//! Characters and strings: conversions between `str`/`String` and `Vec<char>`,
//! UTF-8 byte widths and byte offsets, and the Unicode character classes the
//! editor's word motions rely on.
use vstd::prelude::*;

verus! {

// ---------------------------------------------------------------------------
// Unicode character classes (std's `char` predicates)
// ---------------------------------------------------------------------------

/// Whether `c` has the Unicode `White_Space` property (what `char::is_whitespace`
/// reports): tab, line feed, vertical tab, form feed, carriage return, space,
/// next line, no-break space, ogham space mark, the spaces U+2000 to U+200A,
/// line and paragraph separators, narrow no-break space, medium mathematical
/// space and ideographic space.
#[verifier::opaque]
pub open spec fn unicode_white_space(c: char) -> bool {
    let u = c as u32;
    ||| 0x09 <= u <= 0x0D
    ||| u == 0x20
    ||| u == 0x85
    ||| u == 0xA0
    ||| u == 0x1680
    ||| 0x2000 <= u <= 0x200A
    ||| u == 0x2028
    ||| u == 0x2029
    ||| u == 0x202F
    ||| u == 0x205F
    ||| u == 0x3000
}

/// Whether `c` is `Alphabetic` or `Numeric` in Unicode, as `char::is_alphanumeric` reports it.
pub uninterp spec fn unicode_alphanumeric(c: char) -> bool;

/// Whether `c` is white space (the Unicode `White_Space` property).
pub fn is_whitespace(c: char) -> (b: bool)
    ensures
        b == unicode_white_space(c),
{
    reveal(unicode_white_space);
    let u = c as u32;
    (0x09 <= u && u <= 0x0D) || u == 0x20 || u == 0x85 || u == 0xA0 || u == 0x1680 || (0x2000 <= u
        && u <= 0x200A) || u == 0x2028 || u == 0x2029 || u == 0x202F || u == 0x205F || u == 0x3000
}

/// Calls `char::is_alphanumeric`. Its result is a function of `c` alone, given by the
/// Unicode tables std was built with; the contract names it and claims nothing more.
#[verifier::external_body]
pub(crate) fn is_alphanumeric(c: char) -> (b: bool)
    ensures
        b == unicode_alphanumeric(c),
{
    c.is_alphanumeric()
}

/// A character that belongs to a (small) word: alphanumeric or `_`.
pub open spec fn is_word_char(c: char) -> bool {
    unicode_alphanumeric(c) || c == '_'
}

/// The class of a character for word motions: 0 for blanks, 1 for word
/// characters (every non-blank when `big`), 2 for other punctuation.
pub open spec fn char_class(c: char, big: bool) -> u8 {
    if unicode_white_space(c) {
        0
    } else if !big && !is_word_char(c) {
        2
    } else {
        1
    }
}

/// Whether `c` is a word character (alphanumeric or `_`).
pub fn word_char(c: char) -> (b: bool)
    ensures
        b == is_word_char(c),
{
    is_alphanumeric(c) || c == '_'
}

// ---------------------------------------------------------------------------
// str / String <-> Vec<char>
// ---------------------------------------------------------------------------

/// Calls `String::push`: appends `c` to the end of `s`.
#[verifier::external_body]
pub(crate) fn push_char(s: &mut String, c: char)
    ensures
        final(s)@ == old(s)@.push(c),
{
    s.push(c);
}

/// Append the chars of `v` to `s`.
pub fn push_chars(s: &mut String, v: &Vec<char>)
    ensures
        final(s)@ == old(s)@ + v@,
{
    let mut i: usize = 0;
    while i < v.len()
        invariant
            i <= v@.len(),
            s@ == old(s)@ + v@.take(i as int),
        decreases v.len() - i,
    {
        push_char(s, v[i]);
        i += 1;
        proof {
            assert(s@ =~= old(s)@ + v@.take(i as int));
        }
    }
    proof {
        assert(v@.take(v@.len() as int) =~= v@);
    }
}

/// The characters of `s`, in order.
pub fn chars_of(s: &str) -> (v: Vec<char>)
    ensures
        v@ == s@,
{
    let mut v: Vec<char> = Vec::new();
    for c in it: s.chars()
        invariant
            v@ == it.seq().take(it.index() as int),
            it.seq() == s@,
    {
        v.push(c);
    }
    v
}

/// `cur` without one trailing carriage return.
pub open spec fn strip_cr(cur: Seq<char>) -> Seq<char> {
    if cur.len() > 0 && cur.last() == '\r' {
        cur.drop_last()
    } else {
        cur
    }
}

/// After reading the first `k` chars of `s`: the completed lines, and the
/// line still open. A `'\n'` closes the open line, without a `'\r'` before it.
pub open spec fn split_state(s: Seq<char>, k: int) -> (Seq<Seq<char>>, Seq<char>)
    decreases k,
{
    if k <= 0 {
        (Seq::empty(), Seq::empty())
    } else {
        let (done, cur) = split_state(s, k - 1);
        if s[k - 1] == '\n' {
            (done.push(strip_cr(cur)), Seq::empty())
        } else {
            (done, cur.push(s[k - 1]))
        }
    }
}

/// The lines of `s`, as `str::lines` yields them: split at `"\n"` or `"\r\n"`,
/// terminators dropped, and no empty line after a final terminator.
pub open spec fn lines_of(s: Seq<char>) -> Seq<Seq<char>> {
    let (done, cur) = split_state(s, s.len() as int);
    if cur.len() == 0 {
        done
    } else {
        done.push(cur)
    }
}

/// `list` joined with `'\n'` between consecutive items.
pub open spec fn join_lines(list: Seq<Seq<char>>) -> Seq<char>
    decreases list.len(),
{
    if list.len() == 0 {
        Seq::empty()
    } else if list.len() == 1 {
        list[0]
    } else {
        join_lines(list.drop_last()) + seq!['\n'] + list.last()
    }
}


/// Joining one more line adds a `'\n'` and the line.
pub proof fn lemma_join_push(list: Seq<Seq<char>>, r: Seq<char>)
    requires
        list.len() > 0,
    ensures
        join_lines(list.push(r)) == join_lines(list) + seq!['\n'] + r,
{
    assert(list.push(r).drop_last() =~= list);
}

/// `split_state` looks only at the chars it has read.
pub proof fn lemma_split_state_prefix(s: Seq<char>, t: Seq<char>, k: int)
    requires
        0 <= k <= s.len(),
        k <= t.len(),
        s.take(k) == t.take(k),
    ensures
        split_state(s, k) == split_state(t, k),
    decreases k,
{
    if k > 0 {
        assert(s[k - 1] == s.take(k)[k - 1]);
        assert(t[k - 1] == t.take(k)[k - 1]);
        assert(s.take(k - 1) =~= s.take(k).take(k - 1));
        assert(t.take(k - 1) =~= t.take(k).take(k - 1));
        lemma_split_state_prefix(s, t, k - 1);
    }
}

/// Reading chars that hold no `'\n'` only extends the open line.
pub proof fn lemma_split_state_no_newline(p: Seq<char>, r: Seq<char>)
    requires
        forall|j: int| 0 <= j < r.len() ==> r[j] != '\n',
    ensures
        split_state(p + r, (p.len() + r.len()) as int) == (split_state(p, p.len() as int).0, split_state(p, p.len() as int).1 + r),
    decreases r.len(),
{
    if r.len() == 0 {
        assert(p + r =~= p);
        assert(split_state(p, p.len() as int).1 + r =~= split_state(p, p.len() as int).1);
    } else {
        let r1 = r.drop_last();
        let k = p.len() + r.len();
        assert((p + r).take(k - 1) =~= (p + r1).take(k - 1));
        lemma_split_state_prefix(p + r, p + r1, k - 1);
        lemma_split_state_no_newline(p, r1);
        assert((p + r)[k - 1] == r.last());
        assert(split_state(p, p.len() as int).1 + r1 + seq![r.last()] =~= split_state(p, p.len() as int).1 + r);
        assert(split_state(p, p.len() as int).1 + r1 + seq![r.last()] =~= (split_state(p, p.len() as int).1 + r1).push(r.last()));
    }
}

/// Reading a `'\n'` closes the open line.
pub proof fn lemma_split_state_newline(p: Seq<char>)
    ensures
        split_state(p + seq!['\n'], p.len() + 1int) == (
            split_state(p, p.len() as int).0.push(strip_cr(split_state(p, p.len() as int).1)),
            Seq::<char>::empty(),
        ),
{
    let q = p + seq!['\n'];
    assert(q.take(p.len() as int) =~= p.take(p.len() as int));
    lemma_split_state_prefix(q, p, p.len() as int);
    assert(q[p.len() as int] == '\n');
}

/// Reading the lines joined with `'\n'` leaves all but the last line
/// completed (without a trailing `'\r'`) and the last one open.
pub proof fn lemma_split_join(rows: Seq<Seq<char>>)
    requires
        rows.len() > 0,
        forall|i: int, j: int| 0 <= i < rows.len() && 0 <= j < rows[i].len() ==> rows[i][j] != '\n',
    ensures
        split_state(join_lines(rows), join_lines(rows).len() as int) == (
            rows.drop_last().map_values(|r: Seq<char>| strip_cr(r)),
            rows.last(),
        ),
    decreases rows.len(),
{
    if rows.len() == 1 {
        lemma_split_state_no_newline(Seq::empty(), rows[0]);
        assert(Seq::<char>::empty() + rows[0] =~= rows[0]);
        assert(rows.drop_last().map_values(|r: Seq<char>| strip_cr(r)) =~= Seq::<Seq<char>>::empty());
        assert(split_state(Seq::<char>::empty(), 0) == (Seq::<Seq<char>>::empty(), Seq::<char>::empty()));
        assert(Seq::<char>::empty() + rows[0] =~= rows[0]);
    } else {
        let front = rows.drop_last();
        lemma_split_join(front);
        let j = join_lines(front);
        lemma_split_state_newline(j);
        let q = j + seq!['\n'];
        lemma_split_state_no_newline(q, rows.last());
        assert(join_lines(rows) == q + rows.last());
        assert(front.drop_last().map_values(|r: Seq<char>| strip_cr(r)).push(strip_cr(front.last()))
            =~= rows.drop_last().map_values(|r: Seq<char>| strip_cr(r)));
        assert(Seq::<char>::empty() + rows.last() =~= rows.last());
    }
}

/// The lines of `text`, as `str::lines` splits them.
pub fn split_lines(text: &str) -> (v: Vec<String>)
    ensures
        v@.map_values(|s: String| s@) == lines_of(text@),
{
    let chars = chars_of(text);
    let ghost s = chars@;
    let mut done: Vec<String> = Vec::new();
    let mut cur: Vec<char> = Vec::new();
    let mut k: usize = 0;
    while k < chars.len()
        invariant
            k <= s.len(),
            chars@ == s,
            s == text@,
            (done@.map_values(|t: String| t@), cur@) == split_state(s, k as int),
        decreases chars.len() - k,
    {
        let c = chars[k];
        if c == '\n' {
            if cur.len() > 0 && cur[cur.len() - 1] == '\r' {
                cur.pop();
            }
            let line = string_of(&cur);
            let ghost before = done@;
            done.push(line);
            proof {
                assert(done@.map_values(|t: String| t@) =~= before.map_values(|t: String| t@).push(line@));
            }
            cur = Vec::new();
        } else {
            cur.push(c);
        }
        k += 1;
    }
    if cur.len() > 0 {
        let line = string_of(&cur);
        let ghost before = done@;
        done.push(line);
        proof {
            assert(done@.map_values(|t: String| t@) =~= before.map_values(|t: String| t@).push(line@));
        }
    }
    done
}

/// The string made of the characters `v[from..to]`.
pub fn string_of_range(v: &Vec<char>, from: usize, to: usize) -> (s: String)
    requires
        from <= to <= v.len(),
    ensures
        s@ == v@.subrange(from as int, to as int),
{
    let mut s = String::new();
    let mut i = from;
    while i < to
        invariant
            from <= i <= to <= v.len(),
            s@ == v@.subrange(from as int, i as int),
        decreases to - i,
    {
        push_char(&mut s, v[i]);
        i += 1;
        assert(s@ =~= v@.subrange(from as int, i as int));
    }
    s
}

/// The string made of the characters of `v`.
pub fn string_of(v: &Vec<char>) -> (s: String)
    ensures
        s@ == v@,
{
    let s = string_of_range(v, 0, v.len());
    assert(v@.subrange(0, v@.len() as int) =~= v@);
    s
}

// ---------------------------------------------------------------------------
// UTF-8 widths and byte offsets
// ---------------------------------------------------------------------------

/// Number of bytes in the UTF-8 encoding of `c`.
pub open spec fn char_width(c: char) -> nat {
    if (c as u32) < 0x80 {
        1
    } else if (c as u32) < 0x800 {
        2
    } else if (c as u32) < 0x10000 {
        3
    } else {
        4
    }
}

/// Number of bytes in the UTF-8 encoding of `s`.
pub open spec fn byte_len(s: Seq<char>) -> nat
    decreases s.len(),
{
    if s.len() == 0 {
        0
    } else {
        byte_len(s.drop_last()) + char_width(s.last())
    }
}

/// Byte offset `x` of `s` is where char `k` starts (or the end of `s`, when `k == s.len()`).
pub open spec fn is_char_start(s: Seq<char>, x: int, k: int) -> bool {
    0 <= k <= s.len() && byte_len(s.take(k)) == x
}

/// Byte offset `x` lies on a char boundary of `s` (start or end included).
pub open spec fn is_boundary(s: Seq<char>, x: int) -> bool {
    exists|k: int| is_char_start(s, x, k)
}

/// The index of the char that starts at byte offset `x` (meaningful when `is_boundary(s, x)`).
pub open spec fn char_index(s: Seq<char>, x: int) -> int {
    choose|k: int| is_char_start(s, x, k)
}

/// Byte offsets of prefixes grow strictly with the prefix length.
pub proof fn lemma_byte_len_take_strict(s: Seq<char>, i: int, j: int)
    requires
        0 <= i < j <= s.len(),
    ensures
        byte_len(s.take(i)) < byte_len(s.take(j)),
    decreases j - i,
{
    assert(s.take(j).drop_last() =~= s.take(j - 1));
    if i < j - 1 {
        lemma_byte_len_take_strict(s, i, j - 1);
    }
}

/// The char index at a boundary is the unique one.
pub proof fn lemma_char_index_unique(s: Seq<char>, x: int, k: int)
    requires
        is_char_start(s, x, k),
    ensures
        is_boundary(s, x),
        char_index(s, x) == k,
{
    let c = char_index(s, x);
    assert(is_char_start(s, x, c));
    if c < k {
        lemma_byte_len_take_strict(s, c, k);
    } else if k < c {
        lemma_byte_len_take_strict(s, k, c);
    }
}

/// Byte length of one more char.
pub proof fn lemma_byte_len_take_next(s: Seq<char>, k: int)
    requires
        0 <= k < s.len(),
    ensures
        byte_len(s.take(k + 1)) == byte_len(s.take(k)) + char_width(s[k]),
{
    assert(s.take(k + 1).drop_last() =~= s.take(k));
}

/// Number of UTF-8 bytes of `c`.
pub fn width_of(c: char) -> (w: usize)
    ensures
        w == char_width(c),
        1 <= w <= 4,
{
    let u = c as u32;
    if u < 0x80 {
        1
    } else if u < 0x800 {
        2
    } else if u < 0x10000 {
        3
    } else {
        4
    }
}

/// The index of the char of `s` that starts at byte offset `x`, if `x` is a char boundary.
pub fn byte_to_char(s: &Vec<char>, x: usize) -> (r: Option<usize>)
    ensures
        r matches Some(k) ==> is_char_start(s@, x as int, k as int) && is_boundary(s@, x as int)
            && char_index(s@, x as int) == k,
        r is None ==> !is_boundary(s@, x as int),
{
    let mut k: usize = 0;
    let mut acc: usize = 0;
    while k < s.len()
        invariant
            0 <= k <= s.len(),
            acc == byte_len(s@.take(k as int)),
            acc <= x,
        decreases s.len() - k,
    {
        if acc == x {
            proof {
                lemma_char_index_unique(s@, x as int, k as int);
            }
            return Some(k);
        }
        let w = width_of(s[k]);
        proof {
            lemma_byte_len_take_next(s@, k as int);
        }
        if w > x - acc {
            proof {
                assert forall|j: int| !is_char_start(s@, x as int, j) by {
                    if 0 <= j <= k {
                        if j < k {
                            lemma_byte_len_take_strict(s@, j, k as int);
                        }
                    } else if k + 1 < j <= s.len() {
                        lemma_byte_len_take_strict(s@, k + 1, j);
                    }
                }
            }
            return None;
        }
        acc = acc + w;
        k = k + 1;
    }
    if acc == x {
        proof {
            lemma_char_index_unique(s@, x as int, k as int);
        }
        Some(k)
    } else {
        proof {
            assert forall|j: int| !is_char_start(s@, x as int, j) by {
                if 0 <= j < k {
                    lemma_byte_len_take_strict(s@, j, k as int);
                }
            }
        }
        None
    }
}


/// Whether byte offset `x` is within `s` (at most its UTF-8 length).
pub fn within_bytes(s: &Vec<char>, x: usize) -> (b: bool)
    ensures
        b == (x as int <= byte_len(s@)),
{
    let mut k: usize = 0;
    let mut acc: usize = 0;
    while k < s.len()
        invariant
            0 <= k <= s.len(),
            acc == byte_len(s@.take(k as int)),
            acc < x || k == 0,
            acc <= x,
        decreases s.len() - k,
    {
        if acc >= x {
            proof {
                if k < s.len() {
                    lemma_byte_len_take_strict(s@, k as int, s@.len() as int);
                }
                assert(s@.take(s@.len() as int) =~= s@);
            }
            return true;
        }
        let w = width_of(s[k]);
        proof {
            lemma_byte_len_take_next(s@, k as int);
        }
        if w >= x - acc {
            proof {
                if k + 1 < s.len() {
                    lemma_byte_len_take_strict(s@, k + 1, s@.len() as int);
                }
                assert(s@.take(s@.len() as int) =~= s@);
            }
            return true;
        }
        acc = acc + w;
        k = k + 1;
    }
    proof {
        assert(s@.take(s@.len() as int) =~= s@);
    }
    acc >= x
}


/// Splitting off the first char of a byte length.
pub proof fn lemma_byte_len_first(s: Seq<char>)
    requires
        s.len() > 0,
    ensures
        byte_len(s) == char_width(s[0]) + byte_len(s.drop_first()),
    decreases s.len(),
{
    if s.len() == 1 {
        assert(s.drop_last() =~= Seq::<char>::empty());
        assert(s.drop_first() =~= Seq::<char>::empty());
    } else {
        lemma_byte_len_first(s.drop_last());
        assert(s.drop_last().drop_first() =~= s.drop_first().drop_last());
    }
}

/// `byte_len` is the length of vstd's UTF-8 encoding.
pub proof fn lemma_encode_utf8_len(s: Seq<char>)
    ensures
        vstd::utf8::encode_utf8(s).len() == byte_len(s),
    decreases s.len(),
{
    if s.len() > 0 {
        lemma_byte_len_first(s);
        lemma_encode_utf8_len(s.drop_first());
        vstd::utf8::char_is_scalar(s[0]);
    }
}

/// Length in bytes of the UTF-8 encoding of `s`.
pub fn str_byte_len(s: &str) -> (n: usize)
    ensures
        n == byte_len(s@) as usize,
{
    proof {
        lemma_encode_utf8_len(s@);
    }
    s.len()
}

} // verus!
