//! Character-level helpers shared by the header, cookie and URL parsers.
//!
//! Strings are read as sequences of `char`; the functions here search, split and trim such
//! sequences, and say what they compute in terms of the spec functions of this module.

use vstd::prelude::*;

verus! {

broadcast use vstd::seq_lib::group_seq_properties;

/// The character with ASCII upper-case letters folded to lower case, as a code point.
pub open spec fn fold_case(c: char) -> u32 {
    if 'A' <= c && c <= 'Z' {
        (c as u32 + 32) as u32
    } else {
        c as u32
    }
}

/// Two strings are equal when ASCII letters are compared without regard to case.
pub open spec fn eq_ignore_case(a: Seq<char>, b: Seq<char>) -> bool {
    &&& a.len() == b.len()
    &&& forall|i: int| 0 <= i < a.len() ==> #[trigger] fold_case(a[i]) == fold_case(b[i])
}

/// The characters with the Unicode `White_Space` property.
pub open spec fn is_ws(c: char) -> bool {
    let x = c as u32;
    ||| 9 <= x <= 13
    ||| x == 32
    ||| x == 0x85
    ||| x == 0xA0
    ||| x == 0x1680
    ||| 0x2000 <= x <= 0x200A
    ||| x == 0x2028
    ||| x == 0x2029
    ||| x == 0x202F
    ||| x == 0x205F
    ||| x == 0x3000
}

/// The sequence without its leading whitespace.
pub open spec fn trim_start(s: Seq<char>) -> Seq<char>
    decreases s.len(),
{
    if s.len() > 0 && is_ws(s[0]) {
        trim_start(s.drop_first())
    } else {
        s
    }
}

/// The sequence without its trailing whitespace.
pub open spec fn trim_end(s: Seq<char>) -> Seq<char>
    decreases s.len(),
{
    if s.len() > 0 && is_ws(s.last()) {
        trim_end(s.drop_last())
    } else {
        s
    }
}

/// The sequence without leading and trailing whitespace.
pub open spec fn trim(s: Seq<char>) -> Seq<char> {
    trim_end(trim_start(s))
}

/// Index of the first occurrence of `c` in `s`, or -1 if there is none.
pub open spec fn char_pos(s: Seq<char>, c: char) -> int
    decreases s.len(),
{
    if s.len() == 0 {
        -1
    } else if s[0] == c {
        0
    } else {
        let r = char_pos(s.drop_first(), c);
        if r < 0 {
            -1
        } else {
            r + 1
        }
    }
}

/// What `char_pos` computes, stated without recursion.
pub proof fn lemma_char_pos(s: Seq<char>, c: char)
    ensures
        -1 <= char_pos(s, c) < s.len(),
        char_pos(s, c) == -1 <==> (forall|j: int| 0 <= j < s.len() ==> s[j] != c),
        char_pos(s, c) >= 0 ==> s[char_pos(s, c)] == c,
        forall|j: int| 0 <= j < char_pos(s, c) ==> s[j] != c,
    decreases s.len(),
{
    if s.len() > 0 && s[0] != c {
        lemma_char_pos(s.drop_first(), c);
        let r = char_pos(s.drop_first(), c);
        assert forall|j: int| 0 <= j < s.len() && char_pos(s, c) == -1 implies s[j] != c by {
            if j > 0 {
                assert(s[j] == s.drop_first()[j - 1]);
            }
        }
        assert forall|j: int| 0 <= j < char_pos(s, c) implies s[j] != c by {
            if j > 0 {
                assert(s[j] == s.drop_first()[j - 1]);
            }
        }
        if char_pos(s, c) == -1 {
        } else {
            assert(s.drop_first()[r] == s[r + 1]);
            assert(!(forall|j: int| 0 <= j < s.len() ==> s[j] != c)) by {
                assert(s[r + 1] == c);
            }
        }
    }
}

/// The first occurrence of `c` is at `i` exactly when `c` is at `i` and not before.
pub proof fn lemma_char_pos_at(s: Seq<char>, c: char, i: int)
    requires
        0 <= i < s.len(),
        s[i] == c,
        forall|j: int| 0 <= j < i ==> s[j] != c,
    ensures
        char_pos(s, c) == i,
{
    lemma_char_pos(s, c);
    if char_pos(s, c) < i {
        assert(s[char_pos(s, c)] == c);
    }
}

/// Index of the first occurrence of the byte `b` in `s`, or -1 if there is none.
pub open spec fn byte_pos(s: Seq<u8>, b: u8) -> int
    decreases s.len(),
{
    if s.len() == 0 {
        -1
    } else if s[0] == b {
        0
    } else {
        let r = byte_pos(s.drop_first(), b);
        if r < 0 {
            -1
        } else {
            r + 1
        }
    }
}

/// What `byte_pos` computes, stated without recursion.
pub proof fn lemma_byte_pos(s: Seq<u8>, b: u8)
    ensures
        -1 <= byte_pos(s, b) < s.len(),
        byte_pos(s, b) == -1 <==> (forall|j: int| 0 <= j < s.len() ==> s[j] != b),
        byte_pos(s, b) >= 0 ==> s[byte_pos(s, b)] == b,
        forall|j: int| 0 <= j < byte_pos(s, b) ==> s[j] != b,
    decreases s.len(),
{
    if s.len() > 0 && s[0] != b {
        lemma_byte_pos(s.drop_first(), b);
        assert forall|j: int| 0 < j < s.len() implies s[j] == s.drop_first()[j - 1] by {}
        if byte_pos(s, b) >= 0 {
            assert(s[byte_pos(s.drop_first(), b) + 1] == s.drop_first()[byte_pos(s.drop_first(), b)]);
        }
    }
}

/// Index of the first byte `b` of `v`, or `None`.
pub fn find_byte(v: &[u8], b: u8) -> (r: Option<usize>)
    ensures
        match r {
            Some(p) => p < v@.len() && byte_pos(v@, b) == p,
            None => byte_pos(v@, b) == -1,
        },
{
    let mut i: usize = 0;
    while i < v.len()
        invariant
            i <= v@.len(),
            forall|j: int| 0 <= j < i ==> v@[j] != b,
        decreases v@.len() - i,
    {
        if v[i] == b {
            proof {
                lemma_byte_pos(v@, b);
                if byte_pos(v@, b) < i {
                    if byte_pos(v@, b) >= 0 {
                        assert(v@[byte_pos(v@, b)] == b);
                    }
                }
            }
            return Some(i);
        }
        i += 1;
    }
    proof {
        lemma_byte_pos(v@, b);
    }
    None
}

/// Copies `v[start..end]` into a new vector.
pub fn bytes_range(v: &[u8], start: usize, end: usize) -> (r: Vec<u8>)
    requires
        start <= end <= v@.len(),
    ensures
        r@ == v@.subrange(start as int, end as int),
{
    let mut r: Vec<u8> = Vec::new();
    let mut i = start;
    while i < end
        invariant
            start <= i <= end <= v@.len(),
            r@ == v@.subrange(start as int, i as int),
        decreases end - i,
    {
        r.push(v[i]);
        assert(v@.subrange(start as int, i + 1) == v@.subrange(start as int, i as int).push(v@[i as int]));
        i += 1;
    }
    r
}

/// The sequence without its leading `"` characters.
pub open spec fn trim_quotes_start(s: Seq<char>) -> Seq<char>
    decreases s.len(),
{
    if s.len() > 0 && s[0] == '"' {
        trim_quotes_start(s.drop_first())
    } else {
        s
    }
}

/// The sequence without its trailing `"` characters.
pub open spec fn trim_quotes_end(s: Seq<char>) -> Seq<char>
    decreases s.len(),
{
    if s.len() > 0 && s.last() == '"' {
        trim_quotes_end(s.drop_last())
    } else {
        s
    }
}

/// The bounds of `v[start..end]` once the `"` characters at both ends are removed
/// (`str::trim_matches` with `"`).
pub fn trim_quotes_range(v: &Vec<char>, start: usize, end: usize) -> (r: (usize, usize))
    requires
        start <= end <= v@.len(),
    ensures
        start <= r.0 <= r.1 <= end,
        v@.subrange(r.0 as int, r.1 as int) == trim_quotes_end(
            trim_quotes_start(v@.subrange(start as int, end as int)),
        ),
{
    let mut lo = start;
    while lo < end && v[lo] == '"'
        invariant
            start <= lo <= end <= v@.len(),
            trim_quotes_start(v@.subrange(start as int, end as int)) == trim_quotes_start(
                v@.subrange(lo as int, end as int),
            ),
        decreases end - lo,
    {
        assert(v@.subrange(lo as int, end as int).drop_first() == v@.subrange(lo + 1, end as int));
        lo += 1;
    }
    let mut hi = end;
    while hi > lo && v[hi - 1] == '"'
        invariant
            start <= lo <= hi <= end <= v@.len(),
            trim_quotes_end(v@.subrange(lo as int, end as int)) == trim_quotes_end(
                v@.subrange(lo as int, hi as int),
            ),
        decreases hi - lo,
    {
        assert(v@.subrange(lo as int, hi as int).drop_last() == v@.subrange(lo as int, hi - 1));
        hi -= 1;
    }
    (lo, hi)
}

/// `s` cut at each occurrence of `c`, as `str::split` does with a character.
pub open spec fn split_char(s: Seq<char>, c: char) -> Seq<Seq<char>>
    decreases s.len(),
{
    let p = char_pos(s, c);
    if p < 0 || p >= s.len() {
        seq![s]
    } else {
        seq![s.take(p)] + split_char(s.skip(p + 1), c)
    }
}

/// The part before the first `c` and the part after it, or `None` if `c` does not occur
/// (`splitn(2, c)` yielding two pieces).
pub open spec fn split_once(s: Seq<char>, c: char) -> Option<(Seq<char>, Seq<char>)> {
    let p = char_pos(s, c);
    if p < 0 {
        None
    } else {
        Some((s.take(p), s.skip(p + 1)))
    }
}

/// `p` is a prefix of `s`.
pub open spec fn starts_with(s: Seq<char>, p: Seq<char>) -> bool {
    p.len() <= s.len() && s.take(p.len() as int) == p
}

/// `t` occurs in `s` starting at index `i`.
pub open spec fn occurs_at(s: Seq<char>, t: Seq<char>, i: int) -> bool {
    0 <= i && i + t.len() <= s.len() && s.subrange(i, i + t.len()) == t
}

/// `t` occurs somewhere in `s`.
pub open spec fn contains_seq(s: Seq<char>, t: Seq<char>) -> bool {
    exists|i: int| occurs_at(s, t, i)
}

/// `i` is the last index at which `t` occurs in `s`.
pub open spec fn is_last_occurrence(s: Seq<char>, t: Seq<char>, i: int) -> bool {
    occurs_at(s, t, i) && forall|j: int| i < j ==> !occurs_at(s, t, j)
}

/// Collects the characters of a string slice, in order.
pub fn chars_of(s: &str) -> (v: Vec<char>)
    ensures
        v@ == s@,
{
    let mut v: Vec<char> = Vec::new();
    for c in it: s.chars()
        invariant
            v@ == it.seq().take(it.index()),
    {
        v.push(c);
    }
    v
}

/// Appends one character to a string (`String::push`).
#[verifier::external_body]
pub(crate) fn push_char_to(s: &mut String, c: char)
    ensures
        final(s)@ == old(s)@.push(c),
{
    s.push(c);
}

/// Appends the characters of `t` to `s`.
pub fn push_str_to(s: &mut String, t: &str)
    ensures
        final(s)@ == old(s)@ + t@,
{
    let v = chars_of(t);
    let mut i: usize = 0;
    while i < v.len()
        invariant
            i <= v@.len(),
            v@ == t@,
            s@ == old(s)@ + v@.take(i as int),
        decreases v@.len() - i,
    {
        push_char_to(s, v[i]);
        assert(v@.take(i + 1) == v@.take(i as int).push(v@[i as int]));
        i += 1;
    }
    assert(v@.take(v@.len() as int) == v@);
}

/// Builds the string made of `v[start..end]`.
pub fn string_from_range(v: &Vec<char>, start: usize, end: usize) -> (s: String)
    requires
        start <= end <= v@.len(),
    ensures
        s@ == v@.subrange(start as int, end as int),
{
    let mut s = String::new();
    let mut i = start;
    while i < end
        invariant
            start <= i <= end <= v@.len(),
            s@ == v@.subrange(start as int, i as int),
        decreases end - i,
    {
        push_char_to(&mut s, v[i]);
        assert(v@.subrange(start as int, i + 1) == v@.subrange(start as int, i as int).push(v@[i as int]));
        i += 1;
    }
    s
}

/// Builds the string made of all the characters of `v`.
pub fn string_from_chars(v: &Vec<char>) -> (s: String)
    ensures
        s@ == v@,
{
    let s = string_from_range(v, 0, v.len());
    assert(v@.subrange(0, v@.len() as int) == v@);
    s
}

/// Builds the string made of the characters of `t`.
pub fn string_of(t: &str) -> (s: String)
    ensures
        s@ == t@,
{
    t.to_owned()
}

/// Whether `p` is a prefix of `v`.
pub fn starts_with_chars(v: &Vec<char>, p: &Vec<char>) -> (b: bool)
    ensures
        b == starts_with(v@, p@),
{
    if p.len() > v.len() {
        return false;
    }
    let mut i: usize = 0;
    while i < p.len()
        invariant
            p@.len() <= v@.len(),
            i <= p@.len(),
            forall|j: int| 0 <= j < i ==> v@[j] == p@[j],
        decreases p@.len() - i,
    {
        if v[i] != p[i] {
            assert(v@.take(p@.len() as int)[i as int] != p@[i as int]);
            return false;
        }
        i += 1;
    }
    assert(v@.take(p@.len() as int) == p@);
    true
}

/// Whether `p` is a prefix of `s`.
pub fn starts_with_str(s: &str, p: &str) -> (b: bool)
    ensures
        b == starts_with(s@, p@),
{
    let vs = chars_of(s);
    let vp = chars_of(p);
    starts_with_chars(&vs, &vp)
}

/// Whether two strings are equal.
pub fn str_eq(a: &str, b: &str) -> (r: bool)
    ensures
        r == (a@ == b@),
{
    let va = chars_of(a);
    let vb = chars_of(b);
    same_chars(&va, &vb)
}

/// Whether two character vectors are equal.
pub fn same_chars(a: &Vec<char>, b: &Vec<char>) -> (r: bool)
    ensures
        r == (a@ == b@),
{
    if a.len() != b.len() {
        return false;
    }
    let mut i: usize = 0;
    while i < a.len()
        invariant
            a@.len() == b@.len(),
            i <= a@.len(),
            forall|j: int| 0 <= j < i ==> a@[j] == b@[j],
        decreases a@.len() - i,
    {
        if a[i] != b[i] {
            return false;
        }
        i += 1;
    }
    assert(a@ == b@);
    true
}

/// Whether `v[start..end]` holds exactly the characters of `t`.
pub fn range_equals(v: &Vec<char>, start: usize, end: usize, t: &Vec<char>) -> (r: bool)
    requires
        start <= end <= v@.len(),
    ensures
        r == (v@.subrange(start as int, end as int) == t@),
{
    if end - start != t.len() {
        return false;
    }
    let mut i: usize = 0;
    while i < t.len()
        invariant
            start <= end <= v@.len(),
            end - start == t@.len(),
            i <= t@.len(),
            forall|j: int| 0 <= j < i ==> v@[start + j] == t@[j],
        decreases t@.len() - i,
    {
        if v[start + i] != t[i] {
            assert(v@.subrange(start as int, end as int)[i as int] != t@[i as int]);
            return false;
        }
        i += 1;
    }
    assert(v@.subrange(start as int, end as int) == t@);
    true
}

/// Executable `fold_case`.
pub fn fold_case_exec(c: char) -> (r: u32)
    ensures
        r == fold_case(c),
{
    let x = c as u32;
    if 65 <= x && x <= 90 {
        x + 32
    } else {
        x
    }
}

/// Compares `v[start..end]` with `t` without regard to the case of ASCII letters.
pub fn range_eq_ignore_case(v: &Vec<char>, start: usize, end: usize, t: &Vec<char>) -> (b: bool)
    requires
        start <= end <= v@.len(),
    ensures
        b == eq_ignore_case(v@.subrange(start as int, end as int), t@),
{
    if end - start != t.len() {
        return false;
    }
    let mut i: usize = 0;
    while i < t.len()
        invariant
            start <= end <= v@.len(),
            end - start == t@.len(),
            i <= t@.len(),
            forall|j: int| 0 <= j < i ==> #[trigger] fold_case(v@[start + j]) == fold_case(t@[j]),
        decreases t@.len() - i,
    {
        if fold_case_exec(v[start + i]) != fold_case_exec(t[i]) {
            assert(fold_case(v@.subrange(start as int, end as int)[i as int]) != fold_case(t@[i as int]));
            return false;
        }
        i += 1;
    }
    assert forall|j: int| 0 <= j < t@.len() implies #[trigger] fold_case(
        v@.subrange(start as int, end as int)[j],
    ) == fold_case(t@[j]) by {
        assert(v@.subrange(start as int, end as int)[j] == v@[start + j]);
    }
    true
}

/// Compares two strings without regard to the case of ASCII letters (`str::eq_ignore_ascii_case`).
pub fn eq_ignore_ascii_case(a: &str, b: &str) -> (r: bool)
    ensures
        r == eq_ignore_case(a@, b@),
{
    let va = chars_of(a);
    let vb = chars_of(b);
    let r = range_eq_ignore_case(&va, 0, va.len(), &vb);
    assert(va@.subrange(0, va@.len() as int) == va@);
    r
}

/// Executable `is_ws`.
pub fn is_ws_exec(c: char) -> (r: bool)
    ensures
        r == is_ws(c),
{
    let x = c as u32;
    (9 <= x && x <= 13) || x == 32 || x == 0x85 || x == 0xA0 || x == 0x1680 || (0x2000 <= x
        && x <= 0x200A) || x == 0x2028 || x == 0x2029 || x == 0x202F || x == 0x205F || x == 0x3000
}

/// The bounds of `v[start..end]` once its leading and trailing whitespace is removed.
pub fn trim_range(v: &Vec<char>, start: usize, end: usize) -> (r: (usize, usize))
    requires
        start <= end <= v@.len(),
    ensures
        start <= r.0 <= r.1 <= end,
        v@.subrange(r.0 as int, r.1 as int) == trim(v@.subrange(start as int, end as int)),
{
    let mut lo = start;
    while lo < end && is_ws_exec(v[lo])
        invariant
            start <= lo <= end <= v@.len(),
            trim_start(v@.subrange(start as int, end as int)) == trim_start(
                v@.subrange(lo as int, end as int),
            ),
        decreases end - lo,
    {
        assert(v@.subrange(lo as int, end as int).drop_first() == v@.subrange(lo + 1, end as int));
        lo += 1;
    }
    let mut hi = end;
    while hi > lo && is_ws_exec(v[hi - 1])
        invariant
            start <= lo <= hi <= end <= v@.len(),
            trim_end(v@.subrange(lo as int, end as int)) == trim_end(
                v@.subrange(lo as int, hi as int),
            ),
        decreases hi - lo,
    {
        assert(v@.subrange(lo as int, hi as int).drop_last() == v@.subrange(lo as int, hi - 1));
        hi -= 1;
    }
    (lo, hi)
}

/// Index of the first `c` in `v[start..end]`, counted from `start`, or `None`.
pub fn find_char_range(v: &Vec<char>, start: usize, end: usize, c: char) -> (r: Option<usize>)
    requires
        start <= end <= v@.len(),
    ensures
        match r {
            Some(p) => p < end - start && char_pos(v@.subrange(start as int, end as int), c) == p,
            None => char_pos(v@.subrange(start as int, end as int), c) == -1,
        },
{
    let ghost s = v@.subrange(start as int, end as int);
    let mut i = start;
    while i < end
        invariant
            start <= i <= end <= v@.len(),
            s == v@.subrange(start as int, end as int),
            forall|j: int| 0 <= j < i - start ==> s[j] != c,
        decreases end - i,
    {
        if v[i] == c {
            proof {
                lemma_char_pos_at(s, c, i - start);
            }
            return Some(i - start);
        }
        i += 1;
    }
    proof {
        lemma_char_pos(s, c);
    }
    None
}

/// Cuts `v[start..end]` at each occurrence of `c`; each piece is returned as bounds in `v`.
pub fn split_range(v: &Vec<char>, start: usize, end: usize, c: char) -> (r: Vec<(usize, usize)>)
    requires
        start <= end <= v@.len(),
    ensures
        r@.len() == split_char(v@.subrange(start as int, end as int), c).len(),
        forall|k: int|
            0 <= k < r@.len() ==> {
                &&& start <= (#[trigger] r@[k]).0 <= r@[k].1 <= end
                &&& v@.subrange(r@[k].0 as int, r@[k].1 as int) == split_char(
                    v@.subrange(start as int, end as int),
                    c,
                )[k]
            },
{
    let ghost whole = split_char(v@.subrange(start as int, end as int), c);
    let mut r: Vec<(usize, usize)> = Vec::new();
    let mut piece = start;
    let mut i = start;
    while i < end
        invariant
            start <= piece <= i <= end <= v@.len(),
            forall|j: int| piece <= j < i ==> v@[j] != c,
            whole == r@.map_values(|p: (usize, usize)| v@.subrange(p.0 as int, p.1 as int))
                + split_char(v@.subrange(piece as int, end as int), c),
            forall|k: int|
                0 <= k < r@.len() ==> start <= (#[trigger] r@[k]).0 <= r@[k].1 <= end,
        decreases end - i,
    {
        if v[i] == c {
            let ghost s = v@.subrange(piece as int, end as int);
            proof {
                lemma_char_pos_at(s, c, i - piece);
                assert(s.take(i - piece) == v@.subrange(piece as int, i as int));
                assert(s.skip(i - piece + 1) == v@.subrange(i + 1, end as int));
                assert(split_char(s, c) == seq![v@.subrange(piece as int, i as int)] + split_char(
                    v@.subrange(i + 1, end as int),
                    c,
                ));
            }
            let ghost old_r = r@;
            r.push((piece, i));
            proof {
                assert(r@.map_values(|p: (usize, usize)| v@.subrange(p.0 as int, p.1 as int))
                    == old_r.map_values(|p: (usize, usize)| v@.subrange(p.0 as int, p.1 as int))
                    + seq![v@.subrange(piece as int, i as int)]);
            }
            piece = i + 1;
        }
        i += 1;
    }
    let ghost last = v@.subrange(piece as int, end as int);
    proof {
        lemma_char_pos(last, c);
        assert forall|j: int| 0 <= j < last.len() implies last[j] != c by {
            assert(last[j] == v@[piece + j]);
        }
        assert(split_char(last, c) == seq![last]);
    }
    let ghost old_r = r@;
    r.push((piece, end));
    proof {
        assert(r@.map_values(|p: (usize, usize)| v@.subrange(p.0 as int, p.1 as int)) == old_r.map_values(
            |p: (usize, usize)| v@.subrange(p.0 as int, p.1 as int),
        ) + seq![last]);
        assert forall|k: int| 0 <= k < r@.len() implies v@.subrange(
            r@[k].0 as int,
            r@[k].1 as int,
        ) == whole[k] by {
            assert(whole[k] == r@.map_values(
                |p: (usize, usize)| v@.subrange(p.0 as int, p.1 as int),
            )[k]);
        }
    }
    r
}

/// The UTF-8 encoding of two strings one after the other is the encoding of the first followed
/// by that of the second.
pub proof fn lemma_encode_utf8_concat(a: Seq<char>, b: Seq<char>)
    ensures
        vstd::utf8::encode_utf8(a + b) == vstd::utf8::encode_utf8(a) + vstd::utf8::encode_utf8(b),
    decreases a.len(),
{
    if a.len() == 0 {
        assert(a + b == b);
        assert(vstd::utf8::encode_utf8(a) == Seq::<u8>::empty());
        assert(Seq::<u8>::empty() + vstd::utf8::encode_utf8(b) == vstd::utf8::encode_utf8(b));
    } else {
        lemma_encode_utf8_concat(a.drop_first(), b);
        assert((a + b).drop_first() == a.drop_first() + b);
        assert((a + b)[0] == a[0]);
        let e0 = vstd::utf8::encode_scalar(a[0] as u32);
        assert(e0 + (vstd::utf8::encode_utf8(a.drop_first()) + vstd::utf8::encode_utf8(b)) == (e0
            + vstd::utf8::encode_utf8(a.drop_first())) + vstd::utf8::encode_utf8(b));
    }
}

/// `i` is the first index at which `t` occurs in `s`.
pub open spec fn is_first_occurrence(s: Seq<char>, t: Seq<char>, i: int) -> bool {
    occurs_at(s, t, i) && forall|j: int| 0 <= j < i ==> !occurs_at(s, t, j)
}

/// The first index at which `t` occurs in `s` (what `str::find` gives, counted in characters).
pub open spec fn first_occurrence(s: Seq<char>, t: Seq<char>) -> Option<int> {
    if exists|i: int| occurs_at(s, t, i) {
        Some(choose|i: int| is_first_occurrence(s, t, i))
    } else {
        None
    }
}

/// The first occurrence is unique, so `first_occurrence` names it.
pub proof fn lemma_first_occurrence(s: Seq<char>, t: Seq<char>, i: int)
    requires
        is_first_occurrence(s, t, i),
    ensures
        first_occurrence(s, t) == Some(i),
{
    let q = choose|q: int| is_first_occurrence(s, t, q);
    assert(is_first_occurrence(s, t, q));
    if q < i {
        assert(!occurs_at(s, t, q));
    }
    if i < q {
        assert(!occurs_at(s, t, i));
    }
}

/// The first index at which `pat` occurs in `v`.
pub fn find_chars(v: &Vec<char>, pat: &Vec<char>) -> (r: Option<usize>)
    ensures
        match r {
            Some(p) => is_first_occurrence(v@, pat@, p as int) && first_occurrence(v@, pat@)
                == Some(p as int),
            None => first_occurrence(v@, pat@) is None,
        },
{
    let n = v.len();
    let m = pat.len();
    if m > n {
        assert forall|i: int| !occurs_at(v@, pat@, i) by {}
        return None;
    }
    if m == 0 {
        assert(v@.subrange(0, 0) == pat@);
        proof {
            lemma_first_occurrence(v@, pat@, 0);
        }
        return Some(0);
    }
    let mut i: usize = 0;
    while i <= n - m
        invariant
            n == v@.len(),
            m == pat@.len(),
            1 <= m <= n,
            forall|j: int| 0 <= j < i ==> !occurs_at(v@, pat@, j),
        decreases n - m + 1 - i,
    {
        if range_equals(v, i, i + m, pat) {
            proof {
                lemma_first_occurrence(v@, pat@, i as int);
            }
            return Some(i);
        }
        i += 1;
    }
    assert forall|j: int| !occurs_at(v@, pat@, j) by {
        if 0 <= j && j + m <= n {
            assert(j < i);
        }
    }
    None
}

/// Cutting at `c` a sequence that starts with a piece free of `c`, then `c`: that piece comes
/// first, then the pieces of the rest.
pub proof fn lemma_split_char_first(x: Seq<char>, y: Seq<char>, c: char)
    requires
        forall|j: int| 0 <= j < x.len() ==> x[j] != c,
    ensures
        split_char(x + seq![c] + y, c) == seq![x] + split_char(y, c),
{
    let s = x + seq![c] + y;
    assert forall|j: int| 0 <= j < x.len() implies s[j] != c by {
        assert(s[j] == x[j]);
    }
    lemma_char_pos_at(s, c, x.len() as int);
    assert(s.take(x.len() as int) == x);
    assert(s.skip(x.len() as int + 1) == y);
}

/// A sequence free of `c` is a single piece when cut at `c`.
pub proof fn lemma_split_char_none(x: Seq<char>, c: char)
    requires
        forall|j: int| 0 <= j < x.len() ==> x[j] != c,
    ensures
        split_char(x, c) == seq![x],
{
    lemma_char_pos(x, c);
}

} // verus!
