//! Parsing of the `Cookie` header.

use vstd::prelude::*;
use crate::request::{header_value, headers_view, Request};
use crate::text::{
    char_pos, chars_of, find_char_range, is_ws, lemma_char_pos, split_char, split_once, split_range,
    string_from_range, trim, trim_end, trim_quotes_end, trim_quotes_range, trim_quotes_start,
    trim_range, trim_start,
};

verus! {

broadcast use vstd::seq_lib::group_seq_properties;

/// The `(key, value)` pairs of the pieces that hold a `=`: the key trimmed, the value trimmed and
/// rid of surrounding `"` characters. Pieces without `=` are skipped.
pub open spec fn cookie_pairs(pieces: Seq<Seq<char>>) -> Seq<(Seq<char>, Seq<char>)>
    decreases pieces.len(),
{
    if pieces.len() == 0 {
        Seq::empty()
    } else {
        let rest = cookie_pairs(pieces.drop_last());
        match split_once(pieces.last(), '=') {
            Some((k, v)) => rest.push((trim(k), trim_quotes_end(trim_quotes_start(trim(v))))),
            None => rest,
        }
    }
}

/// The cookies of a `Cookie` header value: its `;`-separated pieces read as `key=value`.
pub open spec fn cookie_list(h: Seq<char>) -> Seq<(Seq<char>, Seq<char>)> {
    cookie_pairs(split_char(h, ';'))
}

/// The cookies of a request: those of its `Cookie` header, or none.
pub open spec fn request_cookies(headers: Seq<(Seq<char>, Seq<char>)>) -> Seq<
    (Seq<char>, Seq<char>),
> {
    match header_value(headers, "Cookie"@) {
        Some(h) => cookie_list(h),
        None => Seq::empty(),
    }
}

/// A cookie piece `k=v` reads as the pair `(k, v)`: the value is everything after the first `=`,
/// whatever `=` characters it holds, when the key holds no `=` and neither holds whitespace,
/// and the value holds no `"`. Adding such a piece after others adds that pair after theirs.
pub proof fn lemma_cookie_piece(pieces: Seq<Seq<char>>, k: Seq<char>, v: Seq<char>)
    requires
        forall|j: int| 0 <= j < k.len() ==> k[j] != '=' && !is_ws(k[j]),
        forall|j: int| 0 <= j < v.len() ==> v[j] != '"' && !is_ws(v[j]),
    ensures
        cookie_pairs(pieces.push(k + seq!['='] + v)) == cookie_pairs(pieces).push((k, v)),
{
    let piece = k + seq!['='] + v;
    let all = pieces.push(piece);
    assert(all.drop_last() == pieces);
    assert(all.last() == piece);
    lemma_char_pos(piece, '=');
    assert(piece[k.len() as int] == '=');
    assert forall|j: int| 0 <= j < k.len() implies piece[j] != '=' by {
        assert(piece[j] == k[j]);
    }
    assert(char_pos(piece, '=') == k.len());
    assert(piece.take(k.len() as int) == k);
    assert(piece.skip(k.len() + 1int) == v);
    assert(trim_start(k) == k);
    assert(trim_end(k) == k);
    assert(trim_start(v) == v);
    assert(trim_end(v) == v);
    assert(trim_quotes_start(v) == v);
    assert(trim_quotes_end(v) == v);
}

/// A `Cookie` header `k=v` holding one cookie, with no `;`, reads as the one pair `(k, v)`,
/// under the conditions of `lemma_cookie_piece`.
pub proof fn lemma_single_cookie(k: Seq<char>, v: Seq<char>)
    requires
        forall|j: int| 0 <= j < k.len() ==> k[j] != '=' && k[j] != ';' && !is_ws(k[j]),
        forall|j: int| 0 <= j < v.len() ==> v[j] != ';' && v[j] != '"' && !is_ws(v[j]),
    ensures
        cookie_list(k + seq!['='] + v) == seq![(k, v)],
{
    let h = k + seq!['='] + v;
    lemma_char_pos(h, ';');
    assert forall|j: int| 0 <= j < h.len() implies h[j] != ';' by {
        if j < k.len() {
            assert(h[j] == k[j]);
        } else if j > k.len() {
            assert(h[j] == v[j - k.len() - 1]);
        }
    }
    assert(split_char(h, ';') == seq![h]);
    lemma_cookie_piece(Seq::empty(), k, v);
    assert(Seq::<Seq<char>>::empty().push(h) == seq![h]);
}

/// Parses a `Cookie` header value.
pub fn parse_cookie_header(h: &str) -> (r: Vec<(String, String)>)
    ensures
        headers_view(r@) == cookie_list(h@),
{
    let v = chars_of(h);
    let pieces = split_range(&v, 0, v.len(), ';');
    proof {
        assert(v@.subrange(0, v@.len() as int) == v@);
    }
    let ghost sp = split_char(v@, ';');
    let mut out: Vec<(String, String)> = Vec::new();
    let mut k: usize = 0;
    while k < pieces.len()
        invariant
            k <= pieces@.len(),
            pieces@.len() == sp.len(),
            sp == split_char(v@, ';'),
            forall|j: int|
                0 <= j < pieces@.len() ==> {
                    &&& (#[trigger] pieces@[j]).0 <= pieces@[j].1 <= v@.len()
                    &&& v@.subrange(pieces@[j].0 as int, pieces@[j].1 as int) == sp[j]
                },
            headers_view(out@) == cookie_pairs(sp.take(k as int)),
        decreases pieces@.len() - k,
    {
        let (a, b) = pieces[k];
        let ghost piece = v@.subrange(a as int, b as int);
        proof {
            assert(sp.take(k + 1).drop_last() == sp.take(k as int));
            assert(sp.take(k + 1).last() == piece);
        }
        match find_char_range(&v, a, b, '=') {
            None => {},
            Some(p) => {
                proof {
                    assert(piece.take(p as int) == v@.subrange(a as int, a + p));
                    assert(piece.skip(p + 1) == v@.subrange(a + p + 1, b as int));
                }
                let (klo, khi) = trim_range(&v, a, a + p);
                let (vlo, vhi) = trim_range(&v, a + p + 1, b);
                let (qlo, qhi) = trim_quotes_range(&v, vlo, vhi);
                let ghost before = out@;
                out.push((string_from_range(&v, klo, khi), string_from_range(&v, qlo, qhi)));
                assert(headers_view(out@) == headers_view(before).push(
                    (v@.subrange(klo as int, khi as int), v@.subrange(qlo as int, qhi as int)),
                ));
            },
        }
        k += 1;
    }
    proof {
        assert(sp.take(k as int) == sp);
    }
    out
}

/// Attempts to parse the list of cookies from the request.
///
/// Returns a pair of `(key, value)`. If the header is missing or malformed, an empty
/// `Vec` is returned.
pub fn cookies(request: &Request) -> (r: Vec<(String, String)>)
    ensures
        headers_view(r@) == request_cookies(request@.headers),
{
    match request.header("Cookie") {
        None => Vec::new(),
        Some(h) => parse_cookie_header(h),
    }
}

} // verus!
