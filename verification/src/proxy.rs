//! Dispatch a request to another HTTP server.
//!
//! This module provides what it takes to make rouille behave as a reverse proxy: the request
//! as it is sent to the other server, and the reading of the status line and the headers that
//! come back. The connection to the other server is made by the caller.

use vstd::prelude::*;
use crate::decimal::{parse_decimal_range, parse_unsigned};
use crate::request::{headers_view, Request};
use crate::text::{char_pos, chars_of, find_char_range, str_eq, string_from_range};
use crate::bytes::push_bytes;

verus! {

/// Error that can happen when dispatching the request to another server.
#[derive(Debug)]
pub enum ProxyError {
    /// Can't pass through the body of the request because it was already extracted.
    BodyAlreadyExtracted,
    /// Could not read the body from the request, or could not connect to the remote server, or
    /// the connection to the remote server closed unexpectedly.
    IoError(std::io::Error),
    /// The destination server didn't produce compliant HTTP.
    HttpParseError,
}

impl From<std::io::Error> for ProxyError {
    fn from(err: std::io::Error) -> (r: ProxyError) {
        ProxyError::IoError(err)
    }
}

impl vstd::std_specs::convert::FromSpecImpl<std::io::Error> for ProxyError {
    open spec fn obeys_from_spec() -> bool {
        true
    }

    open spec fn from_spec(err: std::io::Error) -> ProxyError {
        ProxyError::IoError(err)
    }
}

impl ProxyError {
    /// A short description of the error.
    pub fn description(&self) -> (d: &'static str)
        ensures
            d@ == match self {
                ProxyError::BodyAlreadyExtracted => "the body of the request was already extracted"@,
                ProxyError::IoError(_) =>
                    "could not read the body from the request, or could not connect to the remote server, or the connection to the remote server closed unexpectedly"@,
                ProxyError::HttpParseError => "the destination server didn't produce compliant HTTP"@,
            },
    {
        match self {
            ProxyError::BodyAlreadyExtracted => "the body of the request was already extracted",
            ProxyError::IoError(_) =>
                "could not read the body from the request, or could not connect to the remote server, or the connection to the remote server closed unexpectedly",
            ProxyError::HttpParseError => "the destination server didn't produce compliant HTTP",
        }
    }

    /// The error that caused this one: the I/O error, if it is one.
    pub fn cause(&self) -> (c: Option<&std::io::Error>)
        ensures
            c is Some <==> self is IoError,
            c matches Some(e) ==> self matches ProxyError::IoError(inner) && *e == inner,
    {
        match self {
            ProxyError::IoError(e) => Some(e),
            _ => None,
        }
    }
}

/// Configuration for the reverse proxy.
#[derive(Debug, Clone)]
pub struct ProxyConfig<A> {
    /// The address to connect to. For example `example.com:80`.
    pub addr: A,
    /// If `Some`, the `Host` header will be replaced with this value.
    pub replace_host: Option<String>,
}

/// The line of a header as it is passed on; the value of `Host` is replaced when asked.
pub open spec fn proxied_header(h: (Seq<char>, Seq<char>), replace_host: Option<Seq<char>>) -> Seq<
    u8,
> {
    let value = if h.0 == "Host"@ && replace_host is Some {
        replace_host->0
    } else {
        h.1
    };
    vstd::utf8::encode_utf8(h.0) + vstd::utf8::encode_utf8(": "@) + vstd::utf8::encode_utf8(value)
        + vstd::utf8::encode_utf8("\n"@)
}

/// The lines of all the headers as they are passed on.
pub open spec fn proxied_headers(
    h: Seq<(Seq<char>, Seq<char>)>,
    replace_host: Option<Seq<char>>,
) -> Seq<u8>
    decreases h.len(),
{
    if h.len() == 0 {
        Seq::empty()
    } else {
        proxied_headers(h.drop_last(), replace_host) + proxied_header(h.last(), replace_host)
    }
}

/// What is sent to the other server before the body of the request: the request line, the
/// headers, and `Connection: close`.
pub open spec fn proxy_head(
    method: Seq<char>,
    url: Seq<char>,
    h: Seq<(Seq<char>, Seq<char>)>,
    replace_host: Option<Seq<char>>,
) -> Seq<u8> {
    vstd::utf8::encode_utf8(method) + vstd::utf8::encode_utf8(" "@) + vstd::utf8::encode_utf8(url)
        + vstd::utf8::encode_utf8(" HTTP/1.1\n"@) + proxied_headers(h, replace_host)
        + vstd::utf8::encode_utf8("Connection: close\n\n"@)
}

/// The view of an optional string.
pub open spec fn opt_view(o: Option<String>) -> Option<Seq<char>> {
    match o {
        Some(s) => Some(s@),
        None => None,
    }
}

/// Builds what is sent to the other server: the head of the request, then its body, which is
/// taken out of the request.
///
/// Fails with `BodyAlreadyExtracted` exactly when the body was already taken.
pub fn proxy_request<A>(request: &mut Request, config: &ProxyConfig<A>) -> (r: Result<
    (Vec<u8>, Vec<u8>),
    ProxyError,
>)
    ensures
        final(request)@.data is None,
        final(request)@.method == old(request)@.method,
        final(request)@.url == old(request)@.url,
        final(request)@.headers == old(request)@.headers,
        match old(request)@.data {
            None => r matches Err(ProxyError::BodyAlreadyExtracted),
            Some(d) => r matches Ok((head, body)) && head@ == proxy_head(
                old(request)@.method,
                old(request)@.url,
                old(request)@.headers,
                opt_view(config.replace_host),
            ) && body@ == d,
        },
{
    let mut data = match request.data() {
        Some(d) => d,
        None => return Err(ProxyError::BodyAlreadyExtracted),
    };
    let mut head: Vec<u8> = Vec::new();
    push_bytes(&mut head, request.method().as_bytes());
    push_bytes(&mut head, " ".as_bytes());
    push_bytes(&mut head, request.raw_url().as_bytes());
    push_bytes(&mut head, " HTTP/1.1\n".as_bytes());
    let ghost start = head@;
    let headers = request.headers_list();
    let ghost hv = request@.headers;
    let mut i: usize = 0;
    while i < headers.len()
        invariant
            i <= headers@.len(),
            headers_view(headers@) == hv,
            head@ == start + proxied_headers(hv.take(i as int), opt_view(config.replace_host)),
        decreases headers@.len() - i,
    {
        let name = headers[i].0.as_str();
        let value = headers[i].1.as_str();
        assert(hv.take(i + 1).drop_last() == hv.take(i as int));
        assert(hv.take(i + 1).last() == (name@, value@));
        let ghost before = head@;
        push_bytes(&mut head, name.as_bytes());
        push_bytes(&mut head, ": ".as_bytes());
        let replaced = match &config.replace_host {
            Some(h) => str_eq(name, "Host"),
            None => false,
        };
        if replaced {
            match &config.replace_host {
                Some(h) => push_bytes(&mut head, h.as_str().as_bytes()),
                None => {},
            }
        } else {
            push_bytes(&mut head, value.as_bytes());
        }
        push_bytes(&mut head, "\n".as_bytes());
        assert(head@ =~= before + proxied_header((name@, value@), opt_view(config.replace_host)));
        i += 1;
    }
    assert(hv.take(headers@.len() as int) == hv);
    push_bytes(&mut head, "Connection: close\n\n".as_bytes());
    let mut body: Vec<u8> = Vec::new();
    data.read_to_end(&mut body);
    assert(head@ =~= proxy_head(
        old(request)@.method,
        old(request)@.url,
        old(request)@.headers,
        opt_view(config.replace_host),
    ));
    Ok((head, body))
}

/// The status code that a status line such as `HTTP/1.1 200 OK` gives: the second piece
/// between spaces, read as a `u16`.
pub open spec fn status_code_spec(line: Seq<char>) -> Option<nat> {
    let p = char_pos(line, ' ');
    if p < 0 {
        None
    } else {
        let rest = line.skip(p + 1);
        let q = char_pos(rest, ' ');
        let code = if q < 0 {
            rest
        } else {
            rest.take(q)
        };
        parse_unsigned(code, 65535)
    }
}

/// Reads the status code of the status line that the other server sent.
///
/// Fails with `HttpParseError` exactly when the line has no second piece or that piece is not a
/// status code.
pub fn parse_status_line(line: &str) -> (r: Result<u16, ProxyError>)
    ensures
        match status_code_spec(line@) {
            Some(c) => r matches Ok(code) && code == c,
            None => r matches Err(ProxyError::HttpParseError),
        },
{
    let v = chars_of(line);
    let n = v.len();
    assert(v@.subrange(0, n as int) == v@);
    let p = match find_char_range(&v, 0, n, ' ') {
        Some(p) => p,
        None => return Err(ProxyError::HttpParseError),
    };
    let start = p + 1;
    let ghost rest = v@.skip(start as int);
    assert(v@.subrange(start as int, n as int) == rest);
    let end = match find_char_range(&v, start, n, ' ') {
        Some(q) => {
            assert(rest.take(q as int) == v@.subrange(start as int, start + q));
            start + q
        },
        None => n,
    };
    match parse_decimal_range(&v, start, end, 65535) {
        Some(c) => Ok(c as u16),
        None => Err(ProxyError::HttpParseError),
    }
}

/// A header line can be read without the slicing of its value going out of bounds: when it has
/// a `:`, a character that takes a single byte follows it.
pub open spec fn header_line_sliceable(line: Seq<char>) -> bool {
    let p = char_pos(line, ':');
    p < 0 || (p + 1 < line.len() && (line[p + 1] as u32) < 128)
}

/// What a header line such as `Name: value` gives: the name before the first `:`, and the
/// value after it, without the character that follows the `:`.
pub open spec fn header_line_spec(line: Seq<char>) -> Option<(Seq<char>, Seq<char>)> {
    let p = char_pos(line, ':');
    if p < 0 {
        None
    } else {
        Some((line.take(p), line.skip(p + 2)))
    }
}

/// Whether a header line can be read by `parse_header_line`.
pub fn header_line_ok(line: &str) -> (b: bool)
    ensures
        b == header_line_sliceable(line@),
{
    let v = chars_of(line);
    let n = v.len();
    assert(v@.subrange(0, n as int) == v@);
    match find_char_range(&v, 0, n, ':') {
        Some(p) => p + 1 < n && (v[p + 1] as u32) < 128,
        None => true,
    }
}

/// Reads a header line that the other server sent.
///
/// Fails with `HttpParseError` exactly when the line has no `:`.
pub fn parse_header_line(line: &str) -> (r: Result<(String, String), ProxyError>)
    requires
        header_line_sliceable(line@),
    ensures
        match header_line_spec(line@) {
            Some((name, value)) => r matches Ok((n, v)) && n@ == name && v@ == value,
            None => r matches Err(ProxyError::HttpParseError),
        },
{
    let v = chars_of(line);
    let n = v.len();
    assert(v@.subrange(0, n as int) == v@);
    let p = match find_char_range(&v, 0, n, ':') {
        Some(p) => p,
        None => return Err(ProxyError::HttpParseError),
    };
    let name = string_from_range(&v, 0, p);
    let value = string_from_range(&v, p + 2, n);
    assert(v@.take(p as int) == v@.subrange(0, p as int));
    assert(v@.skip(p + 2) == v@.subrange(p + 2, n as int));
    Ok((name, value))
}

/// The status line that the HTTP/1 handler writes, `HTTP/1.1 <code> <reason phrase>`, reads
/// back, through `parse_status_line`, as the code that was written: a proxy in front of a
/// rouille server passes its status codes on unchanged.
pub proof fn lemma_status_line_round_trip(code: u16)
    ensures
        status_code_spec(
            "HTTP/1.1 "@ + crate::decimal::decimal_chars(code as nat) + " "@
                + crate::socket_handler::http1::reason_phrase(code),
        ) == Some(code as nat),
{
    reveal_strlit("HTTP/1.1 ");
    reveal_strlit(" ");
    let digits = crate::decimal::decimal_chars(code as nat);
    crate::decimal::lemma_decimal_round_trip(code as nat, 65535);
    crate::decimal::lemma_decimal_chars_digits(code as nat);
    let phrase = crate::socket_handler::http1::reason_phrase(code);
    let line = "HTTP/1.1 "@ + digits + " "@ + phrase;
    let rest = digits + " "@ + phrase;
    assert(line[8] == ' ');
    assert forall|j: int| 0 <= j < 8 implies line[j] != ' ' by {
        assert(line[j] == "HTTP/1.1 "@[j]);
    }
    crate::text::lemma_char_pos_at(line, ' ', 8);
    assert(line.skip(9) == rest);
    assert(rest[digits.len() as int] == ' ');
    assert forall|j: int| 0 <= j < digits.len() implies rest[j] != ' ' by {
        assert(rest[j] == digits[j]);
        assert(crate::decimal::is_digit(digits[j]));
    }
    crate::text::lemma_char_pos_at(rest, ' ', digits.len() as int);
    assert(rest.take(digits.len() as int) == digits);
}

} // verus!
