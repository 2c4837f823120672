//! The request that a handler answers to.

use vstd::prelude::*;
use crate::text::{
    chars_of, char_pos, eq_ignore_case, eq_ignore_ascii_case, find_char_range, is_last_occurrence,
    contains_seq, lemma_char_pos, occurs_at, starts_with_chars, string_from_range, string_of,
};
use crate::url_codec::{decode_component, decode_form_range, decode_range, plus_to_space};

verus! {

broadcast use vstd::seq_lib::group_seq_properties;

/// The abstract content of a `Request`.
pub struct RequestView {
    pub method: Seq<char>,
    pub url: Seq<char>,
    pub headers: Seq<(Seq<char>, Seq<char>)>,
    pub https: bool,
    pub data: Option<Seq<u8>>,
    pub remote_addr: Seq<char>,
}

/// Represents a request that your handler must answer to.
///
/// This can be either a real request (received by the HTTP server) or a mock object created with
/// one of the `fake_*` constructors.
pub struct Request {
    method: String,
    url: String,
    headers: Vec<(String, String)>,
    https: bool,
    data: Option<Vec<u8>>,
    remote_addr: String,
}

/// The headers as pairs of character sequences.
pub open spec fn headers_view(h: Seq<(String, String)>) -> Seq<(Seq<char>, Seq<char>)> {
    h.map_values(|p: (String, String)| (p.0@, p.1@))
}

impl View for Request {
    type V = RequestView;

    closed spec fn view(&self) -> RequestView {
        RequestView {
            method: self.method@,
            url: self.url@,
            headers: headers_view(self.headers@),
            https: self.https,
            data: match self.data {
                Some(d) => Some(d@),
                None => None,
            },
            remote_addr: self.remote_addr@,
        }
    }
}

/// Index of the first header whose name matches `key` without regard to ASCII case, or -1.
pub open spec fn key_pos(headers: Seq<(Seq<char>, Seq<char>)>, key: Seq<char>) -> int
    decreases headers.len(),
{
    if headers.len() == 0 {
        -1
    } else if eq_ignore_case(headers[0].0, key) {
        0
    } else {
        let r = key_pos(headers.drop_first(), key);
        if r < 0 {
            -1
        } else {
            r + 1
        }
    }
}

/// What `key_pos` computes, stated without recursion.
pub proof fn lemma_key_pos(headers: Seq<(Seq<char>, Seq<char>)>, key: Seq<char>)
    ensures
        -1 <= key_pos(headers, key) < headers.len(),
        key_pos(headers, key) == -1 <==> (forall|j: int|
            0 <= j < headers.len() ==> !eq_ignore_case(#[trigger] headers[j].0, key)),
        key_pos(headers, key) >= 0 ==> eq_ignore_case(headers[key_pos(headers, key)].0, key),
        forall|j: int| 0 <= j < key_pos(headers, key) ==> !eq_ignore_case(#[trigger] headers[j].0, key),
    decreases headers.len(),
{
    if headers.len() > 0 && !eq_ignore_case(headers[0].0, key) {
        let t = headers.drop_first();
        lemma_key_pos(t, key);
        assert forall|j: int| 0 < j < headers.len() implies headers[j] == t[j - 1] by {}
        if key_pos(headers, key) >= 0 {
            assert(headers[key_pos(t, key) + 1] == t[key_pos(t, key)]);
        }
    }
}

/// Value of the first header whose name matches `key` without regard to ASCII case.
pub open spec fn header_value(headers: Seq<(Seq<char>, Seq<char>)>, key: Seq<char>) -> Option<
    Seq<char>,
> {
    let p = key_pos(headers, key);
    if 0 <= p < headers.len() {
        Some(headers[p].1)
    } else {
        None
    }
}

/// The URL without its query string (everything from the first `?`).
pub open spec fn path_part(url: Seq<char>) -> Seq<char> {
    let p = char_pos(url, '?');
    if p < 0 {
        url
    } else {
        url.take(p)
    }
}

/// Everything after the first `?` of the URL, or nothing if there is no `?`.
pub open spec fn query_part(url: Seq<char>) -> Seq<char> {
    let p = char_pos(url, '?');
    if p < 0 {
        Seq::empty()
    } else {
        url.skip(p + 1)
    }
}

/// The raw value of the parameter `name` in the query string `query`: the text after the last
/// occurrence of `name=`, up to the next `&`.
pub open spec fn raw_param(query: Seq<char>, name: Seq<char>) -> Option<Seq<char>> {
    let pat = name.push('=');
    if exists|i: int| is_last_occurrence(query, pat, i) {
        let i = choose|i: int| is_last_occurrence(query, pat, i);
        let rest = query.skip(i + pat.len());
        let e = char_pos(rest, '&');
        Some(if e < 0 { rest } else { rest.take(e) })
    } else {
        None
    }
}

/// A query parameter's raw value never holds an `&`: it stops before the next one.
pub proof fn lemma_param_has_no_ampersand(query: Seq<char>, name: Seq<char>)
    ensures
        raw_param(query, name) matches Some(v) ==> forall|j: int| 0 <= j < v.len() ==> v[j] != '&',
{
    let pat = name.push('=');
    if exists|i: int| is_last_occurrence(query, pat, i) {
        let i = choose|i: int| is_last_occurrence(query, pat, i);
        let rest = query.skip(i + pat.len());
        lemma_char_pos(rest, '&');
    }
}

/// In a query `name=x&rest`, the parameter `name` has the value `x`, up to the `&`, when the
/// name holds no `&` or `=`, `x` holds no `&` or `=`, and `name=` does not occur again in
/// `rest`.
pub proof fn lemma_param_value_stops_at_ampersand(name: Seq<char>, x: Seq<char>, rest: Seq<char>)
    requires
        forall|j: int| 0 <= j < name.len() ==> name[j] != '&' && name[j] != '=',
        forall|j: int| 0 <= j < x.len() ==> x[j] != '&' && x[j] != '=',
        !contains_seq(rest, name.push('=')),
    ensures
        raw_param(name.push('=') + x + seq!['&'] + rest, name) == Some(x),
{
    let pat = name.push('=');
    let q = pat + x + seq!['&'] + rest;
    let n = name.len() as int;
    let r0 = n + 1 + x.len() + 1;
    assert(q.subrange(0, pat.len() as int) == pat);
    assert(occurs_at(q, pat, 0));
    assert forall|j: int| 0 < j implies !occurs_at(q, pat, j) by {
        if occurs_at(q, pat, j) {
            let sub = q.subrange(j, j + pat.len());
            assert(sub[n] == '=');
            assert(q[j + n] == '=');
            if j + n < r0 - 1 {
                assert(q[j + n] == x[j + n - (n + 1)]);
            } else if j + n == r0 - 1 {
                assert(q[j + n] == '&');
            } else if j < r0 {
                assert(q[r0 - 1] == '&');
                assert(sub[r0 - 1 - j] == q[r0 - 1]);
                assert(sub[r0 - 1 - j] == name[r0 - 1 - j]);
            } else {
                assert(rest.subrange(j - r0, j - r0 + pat.len()) == sub);
                assert(occurs_at(rest, pat, j - r0));
            }
        }
    }
    assert(is_last_occurrence(q, pat, 0));
    let i = choose|i: int| is_last_occurrence(q, pat, i);
    assert(i == 0) by {
        if i > 0 {
            assert(!occurs_at(q, pat, i));
        }
    }
    let tail = q.skip(pat.len() as int);
    assert(tail == x + seq!['&'] + rest);
    lemma_char_pos(tail, '&');
    assert(tail[x.len() as int] == '&');
    assert(char_pos(tail, '&') == x.len());
    assert(tail.take(x.len() as int) == x);
}

/// In a URL `path?name=x&rest`, with no `?` in `path`, `get_param(name)` reads `x` (decoded), under
/// the conditions of `lemma_param_value_stops_at_ampersand`.
pub proof fn lemma_url_param(path: Seq<char>, name: Seq<char>, x: Seq<char>, rest: Seq<char>)
    requires
        forall|j: int| 0 <= j < path.len() ==> path[j] != '?',
        forall|j: int| 0 <= j < name.len() ==> name[j] != '&' && name[j] != '=',
        forall|j: int| 0 <= j < x.len() ==> x[j] != '&' && x[j] != '=',
        !contains_seq(rest, name.push('=')),
    ensures
        raw_param(query_part(path.push('?') + name.push('=') + x + seq!['&'] + rest), name) == Some(x),
{
    let q = name.push('=') + x + seq!['&'] + rest;
    let url = path.push('?') + q;
    assert(path.push('?') + name.push('=') + x + seq!['&'] + rest =~= url);
    assert(query_part(url) == q) by {
        lemma_char_pos(url, '?');
        assert(url[path.len() as int] == '?');
        assert forall|j: int| 0 <= j < path.len() implies url[j] != '?' by {
            assert(url[j] == path[j]);
        }
        assert(char_pos(url, '?') == path.len());
        assert(url.skip(path.len() + 1int) =~= q);
    }
    lemma_param_value_stops_at_ampersand(name, x, rest);
}

/// The UTF-8 byte length of a string.
pub open spec fn utf8_len(s: Seq<char>) -> nat {
    vstd::utf8::encode_utf8(s).len()
}

/// Builds a request out of what a server received.
pub(crate) fn request_from_parts(
    method: String,
    url: String,
    headers: Vec<(String, String)>,
    https: bool,
    data: Option<Vec<u8>>,
    remote_addr: String,
) -> (r: Request)
    ensures
        r@.method == method@,
        r@.url == url@,
        r@.headers == headers_view(headers@),
        r@.https == https,
        r@.data == (match data {
            Some(d) => Some(d@),
            None => None,
        }),
        r@.remote_addr == remote_addr@,
{
    Request { method, url, headers, https, data, remote_addr }
}

/// Builds the request that the `fake_*` constructors describe.
fn build(from: &str, method: &str, url: &str, headers: Vec<(String, String)>, data: Vec<u8>, https: bool) -> (r: Request)
    ensures
        r@.method == method@,
        r@.url == url@,
        r@.headers == headers_view(headers@),
        r@.https == https,
        r@.data == Some(data@),
        r@.remote_addr == from@,
{
    Request {
        method: string_of(method),
        url: string_of(url),
        headers,
        https,
        data: Some(data),
        remote_addr: string_of(from),
    }
}

/// Finds the first header whose name matches `key`.
pub fn find_header(headers: &Vec<(String, String)>, key: &str) -> (r: Option<usize>)
    ensures
        match r {
            Some(i) => i < headers@.len() && key_pos(headers_view(headers@), key@) == i,
            None => key_pos(headers_view(headers@), key@) == -1,
        },
{
    let ghost hv = headers_view(headers@);
    let mut i: usize = 0;
    while i < headers.len()
        invariant
            i <= headers@.len(),
            hv == headers_view(headers@),
            forall|j: int| 0 <= j < i ==> !eq_ignore_case(#[trigger] hv[j].0, key@),
        decreases headers@.len() - i,
    {
        if eq_ignore_ascii_case(headers[i].0.as_str(), key) {
            proof {
                lemma_key_pos(hv, key@);
                let p = key_pos(hv, key@);
                if p < i {
                    if p >= 0 {
                        assert(!eq_ignore_case(hv[p].0, key@));
                    } else {
                        assert(eq_ignore_case(hv[i as int].0, key@));
                    }
                } else if p > i {
                    assert(eq_ignore_case(hv[i as int].0, key@));
                }
            }
            return Some(i);
        }
        i += 1;
    }
    proof {
        lemma_key_pos(hv, key@);
    }
    None
}

/// The address given to the fake constructors that take no address.
fn default_remote_addr() -> (s: &'static str)
    ensures
        s@ == "127.0.0.1:12345"@,
{
    "127.0.0.1:12345"
}

impl Request {
    /// Builds a fake HTTP request to be used during tests.
    ///
    /// The remote address of the client will be `127.0.0.1:12345`. Use `fake_http_from` to
    /// specify what the client's address should be.
    pub fn fake_http(method: &str, url: &str, headers: Vec<(String, String)>, data: Vec<u8>) -> (r: Request)
        requires
            utf8_len(method@) <= 16,
        ensures
            r@.method == method@,
            r@.url == url@,
            r@.headers == headers_view(headers@),
            !r@.https,
            r@.data == Some(data@),
            r@.remote_addr == "127.0.0.1:12345"@,
    {
        build(default_remote_addr(), method, url, headers, data, false)
    }

    /// Builds a fake HTTP request to be used during tests.
    pub fn fake_http_from(from: &str, method: &str, url: &str, headers: Vec<(String, String)>, data: Vec<u8>) -> (r: Request)
        requires
            utf8_len(method@) <= 16,
        ensures
            r@.method == method@,
            r@.url == url@,
            r@.headers == headers_view(headers@),
            !r@.https,
            r@.data == Some(data@),
            r@.remote_addr == from@,
    {
        build(from, method, url, headers, data, false)
    }

    /// Builds a fake HTTPS request to be used during tests.
    ///
    /// The remote address of the client will be `127.0.0.1:12345`. Use `fake_https_from` to
    /// specify what the client's address should be.
    pub fn fake_https(method: &str, url: &str, headers: Vec<(String, String)>, data: Vec<u8>) -> (r: Request)
        requires
            utf8_len(method@) <= 16,
        ensures
            r@.method == method@,
            r@.url == url@,
            r@.headers == headers_view(headers@),
            r@.https,
            r@.data == Some(data@),
            r@.remote_addr == "127.0.0.1:12345"@,
    {
        build(default_remote_addr(), method, url, headers, data, true)
    }

    /// Builds a fake HTTPS request to be used during tests.
    pub fn fake_https_from(from: &str, method: &str, url: &str, headers: Vec<(String, String)>, data: Vec<u8>) -> (r: Request)
        requires
            utf8_len(method@) <= 16,
        ensures
            r@.method == method@,
            r@.url == url@,
            r@.headers == headers_view(headers@),
            r@.https,
            r@.data == Some(data@),
            r@.remote_addr == from@,
    {
        build(from, method, url, headers, data, true)
    }

    /// Returns `true` if the request uses HTTPS, and `false` if it uses HTTP.
    pub fn is_secure(&self) -> (b: bool)
        ensures
            b == self@.https,
    {
        self.https
    }

    /// Returns the method of the request (`GET`, `POST`, etc.).
    pub fn method(&self) -> (m: &str)
        ensures
            m@ == self@.method,
    {
        self.method.as_str()
    }

    /// Returns the raw URL requested by the client. It is not decoded and thus can contain strings
    /// such as `%20`, and the query parameters such as `?p=hello`.
    pub fn raw_url(&self) -> (u: &str)
        ensures
            u@ == self@.url,
    {
        self.url.as_str()
    }

    /// Returns the address of the client that made this request.
    pub fn remote_addr(&self) -> (a: &str)
        ensures
            a@ == self@.remote_addr,
    {
        self.remote_addr.as_str()
    }

    /// Returns the raw query string requested by the client. In other words, everything after the
    /// first `?` in the raw url.
    ///
    /// Returns the empty string if no query string.
    pub fn raw_query_string(&self) -> (q: String)
        ensures
            q@ == query_part(self@.url),
    {
        let v = chars_of(self.url.as_str());
        match find_char_range(&v, 0, v.len(), '?') {
            Some(p) => {
                proof {
                    assert(v@.subrange(0, v@.len() as int) == v@);
                    assert(v@.subrange(p + 1, v@.len() as int) == v@.skip(p + 1));
                }
                string_from_range(&v, p + 1, v.len())
            },
            None => {
                proof {
                    assert(v@.subrange(0, v@.len() as int) == v@);
                }
                String::new()
            },
        }
    }

    /// Returns the URL requested by the client.
    ///
    /// Contrary to `raw_url`, special characters have been decoded and the query string
    /// (eg `?p=hello`) has been removed.
    ///
    /// If there is any non-unicode character in the URL, it will be replaced with `U+FFFD`.
    pub fn url(&self) -> (u: String)
        ensures
            u@ == decode_component(path_part(self@.url)),
    {
        let v = chars_of(self.url.as_str());
        proof {
            assert(v@.subrange(0, v@.len() as int) == v@);
        }
        match find_char_range(&v, 0, v.len(), '?') {
            Some(p) => {
                proof {
                    assert(v@.subrange(0, p as int) == v@.take(p as int));
                }
                decode_range(&v, 0, p)
            },
            None => decode_range(&v, 0, v.len()),
        }
    }

    /// Returns the value of a GET parameter.
    ///
    /// The value is taken after the last `name=` of the query string, up to the next `&`; `+`
    /// stands for a space and `%xx` sequences are decoded.
    pub fn get_param(&self, param_name: &str) -> (r: Option<String>)
        ensures
            match raw_param(query_part(self@.url), param_name@) {
                Some(v) => r matches Some(s) && s@ == decode_component(plus_to_space(v)),
                None => r is None,
            },
    {
        let q = self.raw_query_string();
        let qv = chars_of(q.as_str());
        let mut pat = chars_of(param_name);
        pat.push('=');
        match rfind(&qv, &pat) {
            None => {
                proof {
                    if exists|i: int| is_last_occurrence(qv@, pat@, i) {
                        let i = choose|i: int| is_last_occurrence(qv@, pat@, i);
                        assert(occurs_at(qv@, pat@, i));
                    }
                }
                None
            },
            Some(i) => {
                assert(occurs_at(qv@, pat@, i as int));
                let ql = qv.len();
                assert(i + pat@.len() <= ql);
                let start = i + pat.len();
                proof {
                    assert(is_last_occurrence(qv@, pat@, i as int));
                    lemma_last_occurrence_unique(qv@, pat@, i as int);
                    assert(qv@.subrange(start as int, qv@.len() as int) == qv@.skip(start as int));
                }
                match find_char_range(&qv, start, qv.len(), '&') {
                    None => Some(decode_form_range(&qv, start, qv.len())),
                    Some(e) => {
                        proof {
                            assert(qv@.subrange(start as int, start + e) == qv@.skip(
                                start as int,
                            ).take(e as int));
                        }
                        Some(decode_form_range(&qv, start, start + e))
                    },
                }
            },
        }
    }

    /// Returns the value of a header of the request.
    ///
    /// Returns `None` if no such header could be found.
    pub fn header(&self, key: &str) -> (r: Option<&str>)
        ensures
            match r {
                Some(v) => header_value(self@.headers, key@) == Some(v@),
                None => header_value(self@.headers, key@) is None,
            },
    {
        match find_header(&self.headers, key) {
            Some(i) => {
                proof {
                    lemma_key_pos(headers_view(self.headers@), key@);
                }
                Some(self.headers[i].1.as_str())
            },
            None => {
                proof {
                    lemma_key_pos(headers_view(self.headers@), key@);
                }
                None
            },
        }
    }

    /// Returns a list of all the headers of the request.
    pub fn headers(&self) -> (it: HeadersIter<'_>)
        ensures
            it.remaining() == self@.headers,
    {
        HeadersIter { headers: &self.headers, pos: 0 }
    }

    /// Returns the state of the `DNT` (Do Not Track) header.
    ///
    /// If the header is missing or is malformed, `None` is returned. If the header exists,
    /// `Some(true)` is returned if `DNT` is `1` and `Some(false)` is returned if `DNT` is `0`.
    pub fn do_not_track(&self) -> (r: Option<bool>)
        ensures
            r == match header_value(self@.headers, "DNT"@) {
                Some(h) => if h == seq!['1'] {
                    Some(true)
                } else if h == seq!['0'] {
                    Some(false)
                } else {
                    None
                },
                None => None,
            },
    {
        match self.header("DNT") {
            Some(h) => {
                let v = chars_of(h);
                if v.len() == 1 && v[0] == '1' {
                    assert(v@ == seq!['1']);
                    Some(true)
                } else if v.len() == 1 && v[0] == '0' {
                    assert(v@ == seq!['0']);
                    Some(false)
                } else {
                    None
                }
            },
            None => None,
        }
    }

    /// Whether the body of the request is still there to be taken.
    pub fn has_data(&self) -> (b: bool)
        ensures
            b == self@.data is Some,
    {
        self.data.is_some()
    }

    /// The headers of the request, in order.
    pub(crate) fn headers_list(&self) -> (h: &Vec<(String, String)>)
        ensures
            headers_view(h@) == self@.headers,
    {
        &self.headers
    }

    /// Returns the body of the request.
    ///
    /// The body can only be retrieved once. Returns `None` is the body has already been retreived
    /// before.
    pub fn data(&mut self) -> (r: Option<RequestBody>)
        ensures
            match old(self)@.data {
                Some(d) => r matches Some(b) && b@ == d,
                None => r is None,
            },
            final(self)@.data is None,
            final(self)@.method == old(self)@.method,
            final(self)@.url == old(self)@.url,
            final(self)@.headers == old(self)@.headers,
            final(self)@.https == old(self)@.https,
            final(self)@.remote_addr == old(self)@.remote_addr,
    {
        match self.data.take() {
            Some(d) => Some(RequestBody { body: d, pos: 0 }),
            None => None,
        }
    }

    /// If the decoded URL of the request starts with `prefix`, builds a new `Request` that is
    /// the same as the original but without that prefix.
    ///
    /// The new request carries a copy of the body that is still unread; the original request
    /// is left as it is.
    pub fn remove_prefix(&self, prefix: &str) -> (r: Option<Request>)
        requires
            crate::text::starts_with(decode_component(path_part(self@.url)), prefix@)
                ==> crate::text::starts_with(self@.url, prefix@),
        ensures
            crate::text::starts_with(decode_component(path_part(self@.url)), prefix@) ==> (r matches Some(n) && {
                &&& n@.url == self@.url.skip(prefix@.len() as int)
                &&& n@.method == self@.method
                &&& n@.headers == self@.headers
                &&& n@.https == self@.https
                &&& n@.remote_addr == self@.remote_addr
                &&& n@.data == self@.data
            }),
            !crate::text::starts_with(decode_component(path_part(self@.url)), prefix@) ==> r is None,
    {
        let decoded = self.url();
        let dv = chars_of(decoded.as_str());
        let pv = chars_of(prefix);
        if !starts_with_chars(&dv, &pv) {
            return None;
        }
        let uv = chars_of(self.url.as_str());
        let rest = string_from_range(&uv, pv.len(), uv.len());
        proof {
            assert(uv@.subrange(pv@.len() as int, uv@.len() as int) == uv@.skip(pv@.len() as int));
        }
        let data = match &self.data {
            Some(d) => Some(clone_bytes(d)),
            None => None,
        };
        Some(Request {
            method: self.method.clone(),
            url: rest,
            headers: clone_headers(&self.headers),
            https: self.https,
            data,
            remote_addr: self.remote_addr.clone(),
        })
    }
}

/// Copies bytes.
fn clone_bytes(v: &Vec<u8>) -> (r: Vec<u8>)
    ensures
        r@ == v@,
{
    let mut r: Vec<u8> = Vec::new();
    let mut i: usize = 0;
    while i < v.len()
        invariant
            i <= v@.len(),
            r@ == v@.take(i as int),
        decreases v@.len() - i,
    {
        r.push(v[i]);
        assert(v@.take(i + 1) == v@.take(i as int).push(v@[i as int]));
        i += 1;
    }
    assert(v@.take(i as int) == v@);
    r
}

/// Copies the list of headers.
fn clone_headers(h: &Vec<(String, String)>) -> (r: Vec<(String, String)>)
    ensures
        headers_view(r@) == headers_view(h@),
{
    let mut r: Vec<(String, String)> = Vec::new();
    let mut i: usize = 0;
    while i < h.len()
        invariant
            i <= h@.len(),
            headers_view(r@) == headers_view(h@.take(i as int)),
        decreases h@.len() - i,
    {
        let ghost before = r@;
        r.push((h[i].0.clone(), h[i].1.clone()));
        assert(h@.take(i + 1) == h@.take(i as int).push(h@[i as int]));
        assert(headers_view(r@) == headers_view(before).push((h@[i as int].0@, h@[i as int].1@)));
        assert(headers_view(h@.take(i + 1)) == headers_view(h@.take(i as int)).push((h@[i as int].0@, h@[i as int].1@)));
        i += 1;
    }
    assert(h@.take(i as int) == h@);
    r
}

/// The last occurrence of a pattern is unique.
proof fn lemma_last_occurrence_unique(s: Seq<char>, t: Seq<char>, i: int)
    requires
        is_last_occurrence(s, t, i),
    ensures
        (choose|j: int| is_last_occurrence(s, t, j)) == i,
{
    let j = choose|j: int| is_last_occurrence(s, t, j);
    assert(is_last_occurrence(s, t, j));
    if j < i {
        assert(occurs_at(s, t, i));
    } else if j > i {
        assert(occurs_at(s, t, j));
    }
}

/// Index of the last occurrence of `pat` in `v`.
fn rfind(v: &Vec<char>, pat: &Vec<char>) -> (r: Option<usize>)
    ensures
        match r {
            Some(i) => is_last_occurrence(v@, pat@, i as int),
            None => forall|j: int| !occurs_at(v@, pat@, j),
        },
{
    if pat.len() > v.len() {
        return None;
    }
    let mut k = v.len() - pat.len();
    loop
        invariant
            pat@.len() <= v@.len(),
            k + pat@.len() <= v@.len(),
            forall|j: int| k < j ==> !occurs_at(v@, pat@, j),
        decreases k,
    {
        let mut m: usize = 0;
        let mut same = true;
        let vl = v.len();
        while m < pat.len()
            invariant
                k + pat@.len() <= v@.len(),
                vl == v@.len(),
                m <= pat@.len(),
                same ==> forall|x: int| 0 <= x < m ==> v@[k + x] == pat@[x],
                !same ==> exists|x: int| 0 <= x < pat@.len() && v@[k + x] != pat@[x],
            decreases pat@.len() - m,
        {
            if v[k + m] != pat[m] {
                same = false;
            }
            m += 1;
        }
        if same {
            assert(v@.subrange(k as int, k + pat@.len()) == pat@);
            return Some(k);
        }
        proof {
            let x = choose|x: int| 0 <= x < pat@.len() && v@[k + x] != pat@[x];
            assert(v@.subrange(k as int, k + pat@.len())[x] != pat@[x]);
        }
        if k == 0 {
            return None;
        }
        k = k - 1;
    }
}

/// Iterator to the list of headers in a request.
pub struct HeadersIter<'a> {
    headers: &'a Vec<(String, String)>,
    pos: usize,
}

impl<'a> HeadersIter<'a> {
    #[verifier::type_invariant]
    spec fn inv(&self) -> bool {
        self.pos <= self.headers@.len()
    }

    /// The headers that are still to come.
    pub closed spec fn remaining(&self) -> Seq<(Seq<char>, Seq<char>)> {
        headers_view(self.headers@).skip(self.pos as int)
    }

    /// The next header, as a pair of name and value.
    pub fn next(&mut self) -> (r: Option<(&'a str, &'a str)>)
        ensures
            old(self).remaining().len() == 0 ==> r is None && final(self).remaining() == old(self).remaining(),
            old(self).remaining().len() > 0 ==> (r matches Some(p) && (p.0@, p.1@) == old(self).remaining()[0]
                && final(self).remaining() == old(self).remaining().drop_first()),
    {
        proof {
            use_type_invariant(&*self);
        }
        if self.pos < self.headers.len() {
            let i = self.pos;
            self.pos = self.pos + 1;
            let h: &'a (String, String) = &self.headers[i];
            Some((h.0.as_str(), h.1.as_str()))
        } else {
            None
        }
    }

    /// Bounds on the number of headers that remain; both are exact.
    pub fn size_hint(&self) -> (r: (usize, Option<usize>))
        ensures
            r.0 == self.remaining().len(),
            r.1 == Some(r.0),
    {
        proof {
            use_type_invariant(self);
        }
        let n = self.headers.len() - self.pos;
        (n, Some(n))
    }
}

/// Gives access to the body of a request.
///
/// In order to obtain this object, call `request.data()`.
pub struct RequestBody {
    body: Vec<u8>,
    pos: usize,
}

impl View for RequestBody {
    type V = Seq<u8>;

    /// The bytes that have not been read yet.
    closed spec fn view(&self) -> Seq<u8> {
        self.body@.skip(self.pos as int)
    }
}

impl RequestBody {
    #[verifier::type_invariant]
    spec fn inv(&self) -> bool {
        self.pos <= self.body@.len()
    }

    /// Reads the rest of the body and appends it to `out`. Returns the number of bytes read.
    pub fn read_to_end(&mut self, out: &mut Vec<u8>) -> (n: usize)
        ensures
            final(out)@ == old(out)@ + old(self)@,
            n == old(self)@.len(),
            final(self)@.len() == 0,
    {
        proof {
            use_type_invariant(&*self);
        }
        let ghost start = self@;
        let mut n: usize = 0;
        while self.pos < self.body.len()
            invariant
                self.pos <= self.body@.len(),
                out@ == old(out)@ + start.take(n as int),
                n <= start.len(),
                start == old(self).body@.skip(old(self).pos as int),
                self.body@ == old(self).body@,
                self.pos == old(self).pos + n,
            decreases self.body@.len() - self.pos,
        {
            proof {
                assert(start.take(n + 1) == start.take(n as int).push(self.body@[self.pos as int]));
            }
            out.push(self.body[self.pos]);
            self.pos = self.pos + 1;
            n = n + 1;
        }
        proof {
            assert(start.take(n as int) == start);
        }
        n
    }

    /// Copies as many unread bytes as fit into `buf`. Returns the number of bytes copied.
    pub fn read(&mut self, buf: &mut [u8]) -> (n: usize)
        ensures
            n == if old(buf)@.len() < old(self)@.len() { old(buf)@.len() } else { old(self)@.len() },
            final(buf)@.len() == old(buf)@.len(),
            final(buf)@.take(n as int) == old(self)@.take(n as int),
            final(buf)@.skip(n as int) == old(buf)@.skip(n as int),
            final(self)@ == old(self)@.skip(n as int),
    {
        proof {
            use_type_invariant(&*self);
        }
        let ghost start = self@;
        let mut n: usize = 0;
        while n < buf.len() && self.pos < self.body.len()
            invariant
                self.pos <= self.body@.len(),
                start == old(self).body@.skip(old(self).pos as int),
                self.body@ == old(self).body@,
                self.pos == old(self).pos + n,
                n <= buf@.len(),
                buf@.len() == old(buf)@.len(),
                forall|x: int| 0 <= x < n ==> buf@[x] == start[x],
                forall|x: int| n <= x < buf@.len() ==> buf@[x] == old(buf)@[x],
            decreases buf@.len() - n,
        {
            buf[n] = self.body[self.pos];
            self.pos = self.pos + 1;
            n = n + 1;
        }
        proof {
            assert(buf@.take(n as int) == start.take(n as int));
            assert(buf@.skip(n as int) == old(buf)@.skip(n as int));
            assert(self@ == start.skip(n as int));
        }
        n
    }
}

} // verus!
