//! Content encoding (compression) of responses, as negotiated with `Accept-Encoding`.

use vstd::prelude::*;
use crate::request::{header_value, headers_view, key_pos, lemma_key_pos, Request};
use crate::response::{Response, ResponseBody};
use crate::text::{
    chars_of, contains_seq, eq_ignore_case, eq_ignore_ascii_case, split_char, split_range,
    starts_with, starts_with_chars, string_from_range, string_of, trim, trim_range,
};

verus! {

broadcast use vstd::seq_lib::group_seq_properties;

/// What `deflate::deflate_bytes_gzip` produces from the bytes.
pub uninterp spec fn gzip_encoded(data: Seq<u8>) -> Seq<u8>;

/// What a `brotli2::read::BrotliEncoder` of level 6 reads out of the bytes, until it ends or
/// fails.
pub uninterp spec fn brotli_encoded(data: Seq<u8>) -> Seq<u8>;

/// Compresses bytes into the gzip format (`deflate::deflate_bytes_gzip`).
#[verifier::external_body]
fn gzip_bytes(data: &[u8]) -> (r: Vec<u8>)
    ensures
        r@ == gzip_encoded(data@),
{
    deflate::deflate_bytes_gzip(data)
}

/// Compresses bytes with brotli at level 6 (`brotli2::read::BrotliEncoder`), reading the
/// encoder to its end or to its first error, whatever it gave until then.
#[verifier::external_body]
fn brotli_bytes(data: Vec<u8>) -> (r: Vec<u8>)
    ensures
        r@ == brotli_encoded(data@),
{
    let mut encoder = brotli2::read::BrotliEncoder::new(std::io::Cursor::new(data), 6);
    let mut out = Vec::new();
    match std::io::Read::read_to_end(&mut encoder, &mut out) {
        Ok(_) => out,
        Err(_) => out,
    }
}

/// The list of encodings that an `Accept-Encoding` header value names: its comma-separated
/// elements, trimmed, without the empty ones.
pub open spec fn encoding_list(h: Seq<char>) -> Seq<Seq<char>> {
    nonempty_trimmed(split_char(h, ','))
}

/// The trimmed pieces that are not empty, in order.
pub open spec fn nonempty_trimmed(pieces: Seq<Seq<char>>) -> Seq<Seq<char>>
    decreases pieces.len(),
{
    if pieces.len() == 0 {
        Seq::empty()
    } else {
        let rest = nonempty_trimmed(pieces.drop_last());
        let t = trim(pieces.last());
        if t.len() > 0 {
            rest.push(t)
        } else {
            rest
        }
    }
}

/// The encodings accepted by a request, from the most desired to the least desired.
pub open spec fn accepted_encodings(headers: Seq<(Seq<char>, Seq<char>)>) -> Seq<Seq<char>> {
    match header_value(headers, "Accept-Encoding"@) {
        Some(h) => encoding_list(h),
        None => encoding_list(Seq::empty()),
    }
}

/// A header value that marks textual content, which is worth compressing.
pub open spec fn is_text_type(v: Seq<char>) -> bool {
    ||| starts_with(v, "text/"@)
    ||| contains_seq(v, "javascript"@)
    ||| contains_seq(v, "json"@)
    ||| contains_seq(v, "xml"@)
    ||| contains_seq(v, "font"@)
}

/// Some `Content-Type` header marks textual content.
pub open spec fn response_is_text_spec(headers: Seq<(Seq<char>, Seq<char>)>) -> bool {
    exists|i: int|
        0 <= i < headers.len() && eq_ignore_case(#[trigger] headers[i].0, "Content-Type"@)
            && is_text_type(headers[i].1)
}

/// The encoding `apply` settles on: the first of the accepted ones that is `br`, `gzip` or
/// `identity` (compared without regard to ASCII case).
pub open spec fn chosen_encoding(encs: Seq<Seq<char>>) -> Option<Seq<char>>
    decreases encs.len(),
{
    if encs.len() == 0 {
        None
    } else if eq_ignore_case(encs[0], "br"@) || eq_ignore_case(encs[0], "gzip"@) || eq_ignore_case(
        encs[0],
        "identity"@,
    ) {
        Some(encs[0])
    } else {
        chosen_encoding(encs.drop_first())
    }
}

/// Two responses hold the same status, headers, body and upgrade flag.
pub open spec fn same_response(a: Response, b: Response) -> bool {
    &&& a.status_code == b.status_code
    &&& a.headers@ == b.headers@
    &&& a.data@ == b.data@
    &&& a.upgrade == b.upgrade
}

/// Applies content encoding to the response.
///
/// Analyzes the `Accept-Encoding` header of the request. If one of the encodings is recognized and
/// supported, it adds a `Content-Encoding` header to the `Response` and encodes its body.
///
/// If the response already has a `Content-Encoding` header, this function is a no-op.
/// If the response has a `Content-Type` header that isn't textual content, this function is a
/// no-op.
pub fn apply(request: &Request, response: Response) -> (r: Response)
    ensures
        !response_is_text_spec(headers_view(response.headers@)) || key_pos(
            headers_view(response.headers@),
            "Content-Encoding"@,
        ) >= 0 ==> same_response(r, response),
        response_is_text_spec(headers_view(response.headers@)) && key_pos(
            headers_view(response.headers@),
            "Content-Encoding"@,
        ) < 0 ==> match chosen_encoding(accepted_encodings(request@.headers)) {
            Some(e) => if eq_ignore_case(e, "br"@) {
                &&& r.status_code == response.status_code
                &&& headers_view(r.headers@) == headers_view(response.headers@).push(
                    ("Content-Encoding"@, "br"@),
                )
                &&& r.data@.data == brotli_encoded(response.data@.data)
                &&& r.data@.length is None
                &&& r.upgrade == response.upgrade
            } else if eq_ignore_case(e, "gzip"@) {
                &&& r.status_code == response.status_code
                &&& headers_view(r.headers@) == headers_view(response.headers@).push(
                    ("Content-Encoding"@, "gzip"@),
                )
                &&& r.data@.data == gzip_encoded(response.data@.data)
                &&& r.data@.length == Some(gzip_encoded(response.data@.data).len() as usize)
                &&& r.upgrade == response.upgrade
            } else {
                same_response(r, response)
            },
            None => same_response(r, response),
        },
{
    if !response_is_text(&response) {
        return response;
    }
    match crate::request::find_header(&response.headers, "Content-Encoding") {
        Some(_) => {
            return response;
        },
        None => {},
    }
    let items = encodings_of(request);
    let ghost encs = items@.map_values(|s: String| s@);
    let ghost h0 = headers_view(response.headers@);
    proof {
        assert(encs.skip(0) == encs);
    }
    let mut i: usize = 0;
    while i < items.len()
        invariant
            i <= items@.len(),
            encs == items@.map_values(|s: String| s@),
            encs == accepted_encodings(request@.headers),
            h0 == headers_view(response.headers@),
            response_is_text_spec(h0),
            key_pos(h0, "Content-Encoding"@) < 0,
            chosen_encoding(encs) == chosen_encoding(encs.skip(i as int)),
        decreases items@.len() - i,
    {
        let e = items[i].as_str();
        assert(encs.skip(i as int)[0] == e@);
        if eq_ignore_ascii_case(e, "br") {
            let Response { status_code, mut headers, data, upgrade } = response;
            let ghost old_headers = headers@;
            headers.push((string_of("Content-Encoding"), string_of("br")));
            assert(headers_view(headers@) == headers_view(old_headers).push(("Content-Encoding"@, "br"@)));
            let (bytes, _) = data.into_inner();
            return Response {
                status_code,
                headers,
                data: ResponseBody::from_reader(brotli_bytes(bytes)),
                upgrade,
            };
        }
        if eq_ignore_ascii_case(e, "gzip") {
            let Response { status_code, mut headers, data, upgrade } = response;
            let ghost old_headers = headers@;
            headers.push((string_of("Content-Encoding"), string_of("gzip")));
            assert(headers_view(headers@) == headers_view(old_headers).push(("Content-Encoding"@, "gzip"@)));
            let (bytes, _) = data.into_inner();
            let zipped = gzip_bytes(bytes.as_slice());
            return Response { status_code, headers, data: ResponseBody::from_data(zipped), upgrade };
        }
        if eq_ignore_ascii_case(e, "identity") {
            return response;
        }
        assert(encs.skip(i as int).drop_first() == encs.skip(i + 1));
        i += 1;
    }
    assert(encs.skip(i as int).len() == 0);
    response
}

/// A response that `apply` encoded carries a `Content-Encoding` header, so applying the encoding
/// a second time leaves it as it is: encoding is applied at most once.
pub proof fn lemma_encoded_response_is_left_alone(h: Seq<(Seq<char>, Seq<char>)>, e: Seq<char>)
    ensures
        key_pos(h.push(("Content-Encoding"@, e)), "Content-Encoding"@) >= 0,
{
    let h2 = h.push(("Content-Encoding"@, e));
    lemma_key_pos(h2, "Content-Encoding"@);
    assert(eq_ignore_case(h2[h.len() as int].0, "Content-Encoding"@));
}

/// Whether `pat` occurs in `v`.
pub fn contains_chars(v: &Vec<char>, pat: &Vec<char>) -> (b: bool)
    ensures
        b == contains_seq(v@, pat@),
{
    if pat.len() > v.len() {
        proof {
            assert forall|i: int| !crate::text::occurs_at(v@, pat@, i) by {}
        }
        return false;
    }
    let last = v.len() - pat.len();
    let mut k: usize = 0;
    while k <= last
        invariant
            pat@.len() <= v@.len(),
            last == v@.len() - pat@.len(),
            forall|j: int| 0 <= j < k ==> !crate::text::occurs_at(v@, pat@, j),
        decreases last + 1 - k,
    {
        let mut m: usize = 0;
        let mut same = true;
        let vl = v.len();
        while m < pat.len()
            invariant
                vl == v@.len(),
                k <= last,
                last == v@.len() - pat@.len(),
                m <= pat@.len(),
                same ==> forall|x: int| 0 <= x < m ==> v@[k + x] == pat@[x],
                !same ==> exists|x: int| 0 <= x < pat@.len() && v@[k + x] != pat@[x],
            decreases pat@.len() - m,
        {
            if v[k + m] != pat[m] {
                same = false;
            }
            m += 1;
        }
        if same {
            assert(v@.subrange(k as int, k + pat@.len()) == pat@);
            assert(crate::text::occurs_at(v@, pat@, k as int));
            return true;
        }
        proof {
            let x = choose|x: int| 0 <= x < pat@.len() && v@[k + x] != pat@[x];
            assert(v@.subrange(k as int, k + pat@.len())[x] != pat@[x]);
        }
        if k == last {
            assert forall|j: int| !crate::text::occurs_at(v@, pat@, j) by {
                if 0 <= j && j < k {
                } else if j == k {
                }
            }
            return false;
        }
        k += 1;
    }
    false
}

/// Whether a header value marks textual content.
fn is_text_type_exec(value: &str) -> (b: bool)
    ensures
        b == is_text_type(value@),
{
    let v = chars_of(value);
    starts_with_chars(&v, &chars_of("text/")) || contains_chars(&v, &chars_of("javascript"))
        || contains_chars(&v, &chars_of("json")) || contains_chars(&v, &chars_of("xml"))
        || contains_chars(&v, &chars_of("font"))
}

/// Returns true if the Content-Type of the response is a type that should be encoded.
fn response_is_text(response: &Response) -> (b: bool)
    ensures
        b == response_is_text_spec(headers_view(response.headers@)),
{
    let ghost h = headers_view(response.headers@);
    let mut i: usize = 0;
    while i < response.headers.len()
        invariant
            i <= response.headers@.len(),
            h == headers_view(response.headers@),
            forall|j: int|
                0 <= j < i ==> !(eq_ignore_case(#[trigger] h[j].0, "Content-Type"@) && is_text_type(
                    h[j].1,
                )),
        decreases response.headers@.len() - i,
    {
        if eq_ignore_ascii_case(response.headers[i].0.as_str(), "Content-Type")
            && is_text_type_exec(response.headers[i].1.as_str()) {
            assert(eq_ignore_case(h[i as int].0, "Content-Type"@) && is_text_type(h[i as int].1));
            return true;
        }
        i += 1;
    }
    false
}

/// Iterator to the list of content encodings accepted by a request.
pub struct AcceptedContentEncodingsIter {
    items: Vec<String>,
    pos: usize,
}

impl AcceptedContentEncodingsIter {
    #[verifier::type_invariant]
    spec fn inv(&self) -> bool {
        self.pos <= self.items@.len()
    }

    /// The encodings that are still to come.
    pub closed spec fn remaining(&self) -> Seq<Seq<char>> {
        self.items@.map_values(|s: String| s@).skip(self.pos as int)
    }

    /// The next encoding.
    pub fn next(&mut self) -> (r: Option<String>)
        ensures
            old(self).remaining().len() == 0 ==> r is None && final(self).remaining() == old(
                self,
            ).remaining(),
            old(self).remaining().len() > 0 ==> (r matches Some(s) && s@ == old(self).remaining()[0]
                && final(self).remaining() == old(self).remaining().drop_first()),
    {
        proof {
            use_type_invariant(&*self);
        }
        if self.pos < self.items.len() {
            let s = self.items[self.pos].clone();
            self.pos = self.pos + 1;
            Some(s)
        } else {
            None
        }
    }

    /// The number of encodings that remain.
    pub fn count(self) -> (n: usize)
        ensures
            n == self.remaining().len(),
    {
        proof {
            use_type_invariant(&self);
        }
        self.items.len() - self.pos
    }

    /// Bounds on the number of encodings that remain.
    pub fn size_hint(&self) -> (r: (usize, Option<usize>))
        ensures
            r.0 == 0,
            r.1 == Some(self.remaining().len() as usize),
    {
        proof {
            use_type_invariant(self);
        }
        (0, Some(self.items.len() - self.pos))
    }
}

/// Returns an iterator of the list of content encodings accepted by the request.
pub fn accepted_content_encodings(request: &Request) -> (it: AcceptedContentEncodingsIter)
    ensures
        it.remaining() == accepted_encodings(request@.headers),
{
    let items = encodings_of(request);
    proof {
        assert(items@.map_values(|s: String| s@).skip(0) == items@.map_values(|s: String| s@));
    }
    AcceptedContentEncodingsIter { items, pos: 0 }
}

/// The list of content encodings accepted by the request.
fn encodings_of(request: &Request) -> (items: Vec<String>)
    ensures
        items@.map_values(|s: String| s@) == accepted_encodings(request@.headers),
{
    let h = match request.header("Accept-Encoding") {
        Some(h) => h,
        None => "",
    };
    proof {
        if header_value(request@.headers, "Accept-Encoding"@) is None {
            assert(h@ == ""@);
            assert(""@ == Seq::<char>::empty()) by {
                reveal_strlit("");
            }
        }
    }
    let v = chars_of(h);
    let pieces = split_range(&v, 0, v.len(), ',');
    proof {
        assert(v@.subrange(0, v@.len() as int) == v@);
    }
    let ghost sp = split_char(v@, ',');
    let mut items: Vec<String> = Vec::new();
    let mut k: usize = 0;
    while k < pieces.len()
        invariant
            k <= pieces@.len(),
            pieces@.len() == sp.len(),
            sp == split_char(v@, ','),
            forall|j: int|
                0 <= j < pieces@.len() ==> {
                    &&& (#[trigger] pieces@[j]).0 <= pieces@[j].1 <= v@.len()
                    &&& v@.subrange(pieces@[j].0 as int, pieces@[j].1 as int) == sp[j]
                },
            items@.map_values(|s: String| s@) == nonempty_trimmed(sp.take(k as int)),
        decreases pieces@.len() - k,
    {
        let (a, b) = pieces[k];
        let (lo, hi) = trim_range(&v, a, b);
        proof {
            assert(sp.take(k + 1).drop_last() == sp.take(k as int));
            assert(sp.take(k + 1).last() == sp[k as int]);
        }
        if lo < hi {
            let ghost before = items@;
            items.push(string_from_range(&v, lo, hi));
            assert(items@.map_values(|s: String| s@) == before.map_values(|s: String| s@).push(
                v@.subrange(lo as int, hi as int),
            ));
        }
        k += 1;
    }
    proof {
        assert(sp.take(k as int) == sp);
    }
    items
}

} // verus!
