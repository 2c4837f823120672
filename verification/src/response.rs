//! The response that a handler returns.

use vstd::prelude::*;
use crate::request::{find_header, header_value, headers_view, key_pos, lemma_key_pos, Request};
use crate::text::{chars_of, eq_ignore_case, same_chars, string_of};
use vstd::string::StringExecFns;

verus! {

broadcast use vstd::seq_lib::group_seq_properties;

/// Contains a prototype of a response.
///
/// The response is only sent to the client when you return the `Response` object from your
/// request handler. This means that you are free to create as many `Response` objects as you want.
pub struct Response {
    /// The status code to return to the user.
    pub status_code: u16,
    /// List of headers to be returned in the response.
    ///
    /// The server leaves out `Accept-Ranges`, `Connection`, `Content-Length`, `Content-Range`,
    /// `Trailer`, `Transfer-Encoding` and `Upgrade`, which the connection handles itself; the
    /// length sent is that of `data`. `Content-Encoding` is passed on, as it describes a body
    /// that `content_encoding::apply` encoded.
    pub headers: Vec<(String, String)>,
    /// The body of the response.
    pub data: ResponseBody,
    /// If set, the server hands the client's connection over to the handler of an upgrade
    /// (for example a websocket), and the response carries `Connection: Upgrade`.
    pub upgrade: bool,
}

/// The abstract content of a `ResponseBody`: its bytes and the length announced in advance.
pub struct ResponseBodyView {
    pub data: Seq<u8>,
    pub length: Option<usize>,
}

/// An opaque type that represents the body of a response.
///
/// You can't access the inside of this struct, but you can build one by using one of the provided
/// constructors.
pub struct ResponseBody {
    data: Vec<u8>,
    data_length: Option<usize>,
}

impl View for ResponseBody {
    type V = ResponseBodyView;

    closed spec fn view(&self) -> ResponseBodyView {
        ResponseBodyView { data: self.data@, length: self.data_length }
    }
}

impl ResponseBody {
    /// Extracts the content of the response: its bytes and its length if it is known in advance.
    pub fn into_inner(self) -> (r: (Vec<u8>, Option<usize>))
        ensures
            r.0@ == self@.data,
            r.1 == self@.length,
    {
        (self.data, self.data_length)
    }

    /// Builds a `ResponseBody` that doesn't return any data.
    pub fn empty() -> (b: ResponseBody)
        ensures
            b@.data == Seq::<u8>::empty(),
            b@.length == Some(0usize),
    {
        ResponseBody { data: Vec::new(), data_length: Some(0) }
    }

    /// Builds a new `ResponseBody` from data read from a reader, whose length is not announced in
    /// advance.
    pub fn from_reader(data: Vec<u8>) -> (b: ResponseBody)
        ensures
            b@.data == data@,
            b@.length is None,
    {
        ResponseBody { data, data_length: None }
    }

    /// Builds a new `ResponseBody` that returns the given data.
    pub fn from_data(data: Vec<u8>) -> (b: ResponseBody)
        ensures
            b@.data == data@,
            b@.length == Some(data@.len() as usize),
    {
        let len = data.len();
        ResponseBody { data, data_length: Some(len) }
    }

    /// Builds a new `ResponseBody` that returns an UTF-8 string.
    pub fn from_string(data: &str) -> (b: ResponseBody)
        ensures
            b@.data == vstd::utf8::encode_utf8(data@),
            b@.length == Some(vstd::utf8::encode_utf8(data@).len() as usize),
    {
        let bytes = data.as_bytes();
        ResponseBody::from_data(vstd::slice::slice_to_vec(bytes))
    }
}

/// A response of the given status with a single header and an empty body.
fn single_header(status: u16, name: &str, value: &str) -> (r: Response)
    ensures
        r.status_code == status,
        headers_view(r.headers@) == seq![(name@, value@)],
        r.data@.data == Seq::<u8>::empty(),
        r.data@.length == Some(0usize),
        !r.upgrade,
{
    let mut headers: Vec<(String, String)> = Vec::new();
    headers.push((string_of(name), string_of(value)));
    Response { status_code: status, headers, data: ResponseBody::empty(), upgrade: false }
}

/// A response of status 200 with a `Content-Type` header and the given text as body.
fn with_content(content_type: &str, content: &str) -> (r: Response)
    ensures
        r.status_code == 200,
        headers_view(r.headers@) == seq![("Content-Type"@, content_type@)],
        r.data@.data == vstd::utf8::encode_utf8(content@),
        r.data@.length == Some(vstd::utf8::encode_utf8(content@).len() as usize),
        !r.upgrade,
{
    let mut headers: Vec<(String, String)> = Vec::new();
    headers.push((string_of("Content-Type"), string_of(content_type)));
    Response { status_code: 200, headers, data: ResponseBody::from_string(content), upgrade: false }
}

/// The headers once the first `ETag` header (compared without regard to ASCII case) has the value
/// `etag`, or an `ETag` header has been added at the end when there was none.
pub open spec fn with_etag_headers(h: Seq<(Seq<char>, Seq<char>)>, etag: Seq<char>) -> Seq<
    (Seq<char>, Seq<char>),
> {
    let p = key_pos(h, "ETag"@);
    if 0 <= p < h.len() {
        h.update(p, (h[p].0, etag))
    } else {
        h.push(("ETag"@, etag))
    }
}

impl Response {
    /// Returns true if the status code of this `Response` indicates success.
    ///
    /// This is the range [200-399].
    pub fn is_success(&self) -> (b: bool)
        ensures
            b == (200 <= self.status_code < 400),
    {
        self.status_code >= 200 && self.status_code < 400
    }

    /// Shortcut for `!response.is_success()`.
    pub fn is_error(&self) -> (b: bool)
        ensures
            b == !(200 <= self.status_code < 400),
    {
        !self.is_success()
    }

    /// Builds a `Response` that redirects the user to another URL with a 301 status code. This
    /// semantically means a permanent redirect.
    pub fn redirect_301(target: &str) -> (r: Response)
        ensures
            r.status_code == 301,
            headers_view(r.headers@) == seq![("Location"@, target@)],
            r.data@.data == Seq::<u8>::empty(),
            r.data@.length == Some(0usize),
            !r.upgrade,
    {
        single_header(301, "Location", target)
    }

    /// Builds a `Response` that redirects the user to another URL with a 302 status code. This
    /// semantically means a temporary redirect.
    pub fn redirect_302(target: &str) -> (r: Response)
        ensures
            r.status_code == 302,
            headers_view(r.headers@) == seq![("Location"@, target@)],
            r.data@.data == Seq::<u8>::empty(),
            r.data@.length == Some(0usize),
            !r.upgrade,
    {
        single_header(302, "Location", target)
    }

    /// Builds a `Response` that redirects the user to another URL with a 303 status code. This
    /// means "See Other" and is usually used to indicate where the response of a query is
    /// located.
    pub fn redirect_303(target: &str) -> (r: Response)
        ensures
            r.status_code == 303,
            headers_view(r.headers@) == seq![("Location"@, target@)],
            r.data@.data == Seq::<u8>::empty(),
            r.data@.length == Some(0usize),
            !r.upgrade,
    {
        single_header(303, "Location", target)
    }

    /// Builds a `Response` that redirects the user to another URL with a 307 status code. The
    /// client must keep the same method after the redirection.
    pub fn redirect_307(target: &str) -> (r: Response)
        ensures
            r.status_code == 307,
            headers_view(r.headers@) == seq![("Location"@, target@)],
            r.data@.data == Seq::<u8>::empty(),
            r.data@.length == Some(0usize),
            !r.upgrade,
    {
        single_header(307, "Location", target)
    }

    /// Builds a `Response` that redirects the user to another URL with a 308 status code. The
    /// client must keep the same method after the redirection.
    pub fn redirect_308(target: &str) -> (r: Response)
        ensures
            r.status_code == 308,
            headers_view(r.headers@) == seq![("Location"@, target@)],
            r.data@.data == Seq::<u8>::empty(),
            r.data@.length == Some(0usize),
            !r.upgrade,
    {
        single_header(308, "Location", target)
    }

    /// Builds a `Response` that outputs HTML.
    pub fn html(content: &str) -> (r: Response)
        ensures
            r.status_code == 200,
            headers_view(r.headers@) == seq![("Content-Type"@, "text/html; charset=utf8"@)],
            r.data@.data == vstd::utf8::encode_utf8(content@),
            r.data@.length == Some(vstd::utf8::encode_utf8(content@).len() as usize),
            !r.upgrade,
    {
        with_content("text/html; charset=utf8", content)
    }

    /// Builds a `Response` that outputs SVG.
    pub fn svg(content: &str) -> (r: Response)
        ensures
            r.status_code == 200,
            headers_view(r.headers@) == seq![("Content-Type"@, "image/svg+xml; charset=utf8"@)],
            r.data@.data == vstd::utf8::encode_utf8(content@),
            r.data@.length == Some(vstd::utf8::encode_utf8(content@).len() as usize),
            !r.upgrade,
    {
        with_content("image/svg+xml; charset=utf8", content)
    }

    /// Builds a `Response` that outputs plain text.
    pub fn text(text: &str) -> (r: Response)
        ensures
            r.status_code == 200,
            headers_view(r.headers@) == seq![("Content-Type"@, "text/plain; charset=utf8"@)],
            r.data@.data == vstd::utf8::encode_utf8(text@),
            r.data@.length == Some(vstd::utf8::encode_utf8(text@).len() as usize),
            !r.upgrade,
    {
        with_content("text/plain; charset=utf8", text)
    }

    /// Builds a `Response` that outputs JSON, given the JSON text.
    pub fn json(encoded: &str) -> (r: Response)
        ensures
            r.status_code == 200,
            headers_view(r.headers@) == seq![("Content-Type"@, "application/json"@)],
            r.data@.data == vstd::utf8::encode_utf8(encoded@),
            r.data@.length == Some(vstd::utf8::encode_utf8(encoded@).len() as usize),
            !r.upgrade,
    {
        with_content("application/json", encoded)
    }

    /// Builds a `Response` that returns a `401 Not Authorized` status
    /// and a `WWW-Authenticate` header.
    pub fn basic_http_auth_login_required(realm: &str) -> (r: Response)
        ensures
            r.status_code == 401,
            headers_view(r.headers@) == seq![
                ("WWW-Authenticate"@, "Basic realm=\""@ + realm@ + "\""@),
            ],
            r.data@.data == Seq::<u8>::empty(),
            r.data@.length == Some(0usize),
            !r.upgrade,
    {
        let mut value = string_of("Basic realm=\"");
        value.append(realm);
        value.append("\"");
        single_header(401, "WWW-Authenticate", value.as_str())
    }

    /// Builds an empty `Response` with a 400 status code.
    pub fn empty_400() -> (r: Response)
        ensures
            r.status_code == 400,
            r.headers@.len() == 0,
            r.data@.data == Seq::<u8>::empty(),
            r.data@.length == Some(0usize),
            !r.upgrade,
    {
        Response { status_code: 400, headers: Vec::new(), data: ResponseBody::empty(), upgrade: false }
    }

    /// Builds an empty `Response` with a 404 status code.
    pub fn empty_404() -> (r: Response)
        ensures
            r.status_code == 404,
            r.headers@.len() == 0,
            r.data@.data == Seq::<u8>::empty(),
            r.data@.length == Some(0usize),
            !r.upgrade,
    {
        Response { status_code: 404, headers: Vec::new(), data: ResponseBody::empty(), upgrade: false }
    }

    /// Changes the status code of the response.
    pub fn with_status_code(self, code: u16) -> (r: Response)
        ensures
            r.status_code == code,
            r.headers@ == self.headers@,
            r.data@ == self.data@,
            r.upgrade == self.upgrade,
    {
        let mut s = self;
        s.status_code = code;
        s
    }

    /// Adds a `ETag` header to the response, or replaces an existing header if there is one.
    pub fn with_etag_keep(self, etag: &str) -> (r: Response)
        ensures
            headers_view(r.headers@) == with_etag_headers(headers_view(self.headers@), etag@),
            r.status_code == self.status_code,
            r.data@ == self.data@,
            r.upgrade == self.upgrade,
    {
        let mut s = self;
        let ghost h = headers_view(s.headers@);
        proof {
            lemma_key_pos(h, "ETag"@);
        }
        match find_header(&s.headers, "ETag") {
            Some(i) => {
                let name = s.headers[i].0.clone();
                s.headers.set(i, (name, string_of(etag)));
                assert(headers_view(s.headers@) == h.update(i as int, (h[i as int].0, etag@)));
            },
            None => {
                s.headers.push((string_of("ETag"), string_of(etag)));
                assert(headers_view(s.headers@) == h.push(("ETag"@, etag@)));
            },
        }
        s
    }

    /// Adds or replaces a `ETag` header to the response, and turns the response into an empty 304
    /// response if the ETag matches a `If-None-Match` header of the request.
    pub fn with_etag(self, request: &Request, etag: &str) -> (r: Response)
        ensures
            !(200 <= self.status_code < 400) ==> r.status_code == self.status_code
                && r.headers@ == self.headers@ && r.data@ == self.data@ && r.upgrade == self.upgrade,
            (200 <= self.status_code < 400) ==> {
                &&& headers_view(r.headers@) == with_etag_headers(
                    headers_view(self.headers@),
                    etag@,
                )
                &&& r.upgrade == self.upgrade
                &&& if header_value(request@.headers, "If-None-Match"@) == Some(etag@) {
                    &&& r.status_code == 304
                    &&& r.data@.data == Seq::<u8>::empty()
                    &&& r.data@.length == Some(0usize)
                } else {
                    r.status_code == self.status_code && r.data@ == self.data@
                }
            },
    {
        if !self.is_success() {
            return self;
        }
        let mut s = self;
        let not_modified = match request.header("If-None-Match") {
            Some(h) => {
                let hv = chars_of(h);
                let ev = chars_of(etag);
                same_chars(&hv, &ev)
            },
            None => false,
        };
        if not_modified {
            s.data = ResponseBody::empty();
            s.status_code = 304;
        }
        s.with_etag_keep(etag)
    }
}

/// After `with_etag_keep` (and `with_etag` on a successful response), the `ETag` header of
/// the response is the one given.
pub proof fn lemma_etag_header_is_set(h: Seq<(Seq<char>, Seq<char>)>, etag: Seq<char>)
    ensures
        header_value(with_etag_headers(h, etag), "ETag"@) == Some(etag),
{
    let h2 = with_etag_headers(h, etag);
    lemma_key_pos(h, "ETag"@);
    lemma_key_pos(h2, "ETag"@);
    let p = key_pos(h, "ETag"@);
    if 0 <= p < h.len() {
        assert(h2[p].0 == h[p].0);
        assert forall|j: int| 0 <= j < p implies !eq_ignore_case(#[trigger] h2[j].0, "ETag"@) by {
            assert(h2[j] == h[j]);
        }
        assert(key_pos(h2, "ETag"@) == p);
    } else {
        assert(eq_ignore_case(h2[h.len() as int].0, "ETag"@));
        assert forall|j: int| 0 <= j < h.len() implies !eq_ignore_case(#[trigger] h2[j].0, "ETag"@) by {
            assert(h2[j] == h[j]);
        }
        assert(key_pos(h2, "ETag"@) == h.len());
    }
}

/// Setting the same `ETag` twice gives the same headers as setting it once.
pub proof fn lemma_etag_idempotent(h: Seq<(Seq<char>, Seq<char>)>, etag: Seq<char>)
    ensures
        with_etag_headers(with_etag_headers(h, etag), etag) == with_etag_headers(h, etag),
{
    let h2 = with_etag_headers(h, etag);
    lemma_etag_header_is_set(h, etag);
    lemma_key_pos(h2, "ETag"@);
    let q = key_pos(h2, "ETag"@);
    assert(0 <= q < h2.len());
    assert(h2[q].1 == etag);
    assert(h2.update(q, (h2[q].0, etag)) =~= h2);
}

} // verus!
