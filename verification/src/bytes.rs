//! Searching and cutting byte buffers.

use vstd::prelude::*;

verus! {

broadcast use vstd::seq_lib::group_seq_properties;

/// `pat` occurs in `s` at index `i`.
pub open spec fn window_at(s: Seq<u8>, pat: Seq<u8>, i: int) -> bool {
    0 <= i && i + pat.len() <= s.len() && s.subrange(i, i + pat.len()) == pat
}

/// `i` is the first index at which `pat` occurs in `s`.
pub open spec fn is_first_window(s: Seq<u8>, pat: Seq<u8>, i: int) -> bool {
    window_at(s, pat, i) && forall|j: int| 0 <= j < i ==> !window_at(s, pat, j)
}

/// The first index at which `pat` occurs in `s` (what `windows(..).position(..)` finds).
pub open spec fn first_window(s: Seq<u8>, pat: Seq<u8>) -> Option<int> {
    if exists|i: int| window_at(s, pat, i) {
        Some(choose|i: int| is_first_window(s, pat, i))
    } else {
        None
    }
}

/// The first occurrence is unique, so `first_window` names it.
pub proof fn lemma_first_window(s: Seq<u8>, pat: Seq<u8>, i: int)
    requires
        is_first_window(s, pat, i),
    ensures
        first_window(s, pat) == Some(i),
{
    let q = choose|q: int| is_first_window(s, pat, q);
    assert(is_first_window(s, pat, q));
    if q < i {
        assert(!window_at(s, pat, q));
    }
    if i < q {
        assert(!window_at(s, pat, i));
    }
}

/// The first index at which `pat` occurs in `v[from..]`, counted from `from`.
pub fn find_window(v: &[u8], from: usize, pat: &[u8]) -> (r: Option<usize>)
    requires
        from <= v@.len(),
        pat@.len() > 0,
    ensures
        match r {
            Some(p) => {
                &&& first_window(v@.skip(from as int), pat@) == Some(p as int)
                &&& is_first_window(v@.skip(from as int), pat@, p as int)
                &&& from + p + pat@.len() <= v@.len()
            },
            None => {
                &&& first_window(v@.skip(from as int), pat@) is None
                &&& forall|j: int| !window_at(v@.skip(from as int), pat@, j)
            },
        },
{
    let ghost s = v@.skip(from as int);
    let n = v.len();
    let m = pat.len();
    if m > n {
        proof {
            assert forall|j: int| !window_at(s, pat@, j) by {}
        }
        return None;
    }
    let mut i = from;
    while i <= n - m
        invariant
            from <= i <= n,
            m <= n,
            n == v@.len(),
            m == pat@.len(),
            m > 0,
            s == v@.skip(from as int),
            forall|j: int| 0 <= j < i - from ==> !window_at(s, pat@, j),
        decreases n - i,
    {
        let mut k: usize = 0;
        while k < m && v[i + k] == pat[k]
            invariant
                k <= m,
                i + m <= n,
                n == v@.len(),
                m == pat@.len(),
                forall|t: int| 0 <= t < k ==> v@[i + t] == pat@[t],
            decreases m - k,
        {
            k += 1;
        }
        if k == m {
            proof {
                assert(s.subrange(i - from, i - from + m) == pat@);
                lemma_first_window(s, pat@, i - from);
            }
            return Some(i - from);
        }
        proof {
            assert(s.subrange(i - from, i - from + m)[k as int] != pat@[k as int]);
        }
        i += 1;
    }
    proof {
        assert forall|j: int| !window_at(s, pat@, j) by {
            if 0 <= j && j + m <= s.len() && j >= i - from {
                assert(false);
            }
        }
    }
    None
}

/// Appends the bytes of `b` to `out`.
pub fn push_bytes(out: &mut Vec<u8>, b: &[u8])
    ensures
        final(out)@ == old(out)@ + b@,
{
    out.extend_from_slice(b);
    assert(out@ =~= old(out)@ + b@);
}

/// Removes the first `n` bytes of `v`.
pub fn drop_front(v: &mut Vec<u8>, n: usize)
    requires
        n <= old(v)@.len(),
    ensures
        final(v)@ == old(v)@.skip(n as int),
{
    let rest = v.split_off(n);
    *v = rest;
}

} // verus!
