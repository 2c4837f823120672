//! Handling of client connections: what the socket handlers share.
//!
//! A socket handler is fed the bytes that a client sent and produces the bytes to send back. It
//! performs no I/O itself: the server reads and writes the sockets and calls `update`.

use vstd::prelude::*;
use crate::decimal::{parse_decimal_range, parse_unsigned};
use crate::text::{chars_of, find_char_range, split_char, split_once, split_range, string_from_range};
use crate::url_codec::string_from_utf8;

pub mod http1;
pub mod request_body_analyzer;
pub mod thread_per_request;

verus! {



/// Protocol that can serve HTTP.
#[derive(Debug, Copy, Clone, PartialEq, Eq, Structural)]
pub enum Protocol {
    Http,
    Https,
}

/// How the registration that a handler hands out must be registered.
#[derive(Debug, Copy, Clone, PartialEq, Eq, Structural)]
pub enum RegistrationState {
    /// It is the first time this registration is returned.
    FirstTime,
    /// This registration has been registered before, and `reregister` should be used.
    Reregister,
}

/// What a call to `update` asks of the server.
#[derive(Debug)]
pub struct UpdateResult {
    /// When `Some`, the server must call `update` again when the handler's registration becomes
    /// ready, registering it as the state says.
    pub registration: Option<RegistrationState>,
    /// The socket handler will no longer process incoming data. If `close_read` is true,
    /// `pending_write_buffer` is empty, and `registration` is empty, the socket can be dropped.
    pub close_read: bool,
    /// The data written so far should be flushed to the client.
    pub write_flush_suggested: bool,
}

/// Represents the communication between a socket handler and the outside.
///
/// The outside fills `pending_read_buffer` with incoming data and removes data from
/// `pending_write_buffer`, then calls `update`.
#[derive(Debug)]
pub struct Update {
    /// Filled by the user of the handler and emptied by `update`. The data that comes from the
    /// client.
    pub pending_read_buffer: Vec<u8>,
    /// Filled by `update` and emptied by the user. The data that must be sent to the client.
    pub pending_write_buffer: Vec<u8>,
}

impl Update {
    /// Builds a new empty `Update`.
    pub fn empty() -> (u: Update)
        ensures
            u.pending_read_buffer@.len() == 0,
            u.pending_write_buffer@.len() == 0,
    {
        Update {
            pending_read_buffer: Vec::with_capacity(1024),
            pending_write_buffer: Vec::with_capacity(1024),
        }
    }
}

/// What polling, without waiting, the channel through which a handler hands back its output
/// gave.
pub enum Received<T> {
    /// A value was waiting.
    Value(T),
    /// Nothing is waiting, but the sender may still send.
    Empty,
    /// Nothing is waiting and the sender is gone.
    Disconnected,
}

/// What parsing a header block gave: its headers (names and raw values), or the block is
/// not complete yet, or it is not valid.
pub enum ParsedHeaders {
    Complete(Vec<(String, Vec<u8>)>),
    Partial,
    Invalid,
}

/// The abstract content of a `ParsedHeaders`.
pub enum ParsedHeadersView {
    Complete(Seq<(Seq<char>, Seq<u8>)>),
    Partial,
    Invalid,
}

impl View for ParsedHeaders {
    type V = ParsedHeadersView;

    open spec fn view(&self) -> ParsedHeadersView {
        match self {
            ParsedHeaders::Complete(v) => ParsedHeadersView::Complete(
                v@.map_values(|p: (String, Vec<u8>)| (p.0@, p.1@)),
            ),
            ParsedHeaders::Partial => ParsedHeadersView::Partial,
            ParsedHeaders::Invalid => ParsedHeadersView::Invalid,
        }
    }
}

/// What `httparse::parse_headers` reads at the start of the bytes, into at most 32 headers.
pub uninterp spec fn header_block(buf: Seq<u8>) -> ParsedHeadersView;

/// Parses the header block at the start of `buf` into at most 32 headers
/// (`httparse::parse_headers`). The contract names the result.
#[verifier::external_body]
pub(crate) fn parse_header_block(buf: &[u8]) -> (r: ParsedHeaders)
    ensures
        r@ == header_block(buf@),
{
    let mut headers = [httparse::EMPTY_HEADER; 32];
    match httparse::parse_headers(buf, &mut headers) {
        Ok(httparse::Status::Complete((_, parsed))) => ParsedHeaders::Complete(
            parsed.iter().map(|h| (h.name.to_owned(), h.value.to_vec())).collect(),
        ),
        Ok(httparse::Status::Partial) => ParsedHeaders::Partial,
        Err(_) => ParsedHeaders::Invalid,
    }
}

/// HTTP version (usually 1.0 or 1.1).
#[derive(Debug, Clone, PartialEq, Eq, Structural)]
pub struct HttpVersion(pub u8, pub u8);

/// What a version such as `HTTP/1.1` reads as: the major and minor numbers after the first
/// `/`, separated by the first `.`, each a valid `u8`.
pub open spec fn http_version_spec(v: Seq<char>) -> Option<(u8, u8)> {
    match split_once(v, '/') {
        None => None,
        Some((_, vers)) => match split_once(vers, '.') {
            None => None,
            Some((ma, mi)) => match (parse_unsigned(ma, 255), parse_unsigned(mi, 255)) {
                (Some(a), Some(b)) => Some((a as u8, b as u8)),
                _ => None,
            },
        },
    }
}

/// Parses a `HTTP/1.1` string.
pub fn parse_http_version(version: &str) -> (r: Result<HttpVersion, ()>)
    ensures
        match r {
            Ok(v) => http_version_spec(version@) == Some((v.0, v.1)),
            Err(()) => http_version_spec(version@) is None,
        },
{
    let v = chars_of(version);
    assert(v@.subrange(0, v@.len() as int) == v@);
    parse_version_range(&v, 0, v.len())
}

/// Parses the version written in `v[start..end]`.
fn parse_version_range(v: &Vec<char>, start: usize, end: usize) -> (r: Result<HttpVersion, ()>)
    requires
        start <= end <= v@.len(),
    ensures
        match r {
            Ok(hv) => http_version_spec(v@.subrange(start as int, end as int)) == Some(
                (hv.0, hv.1),
            ),
            Err(()) => http_version_spec(v@.subrange(start as int, end as int)) is None,
        },
{
    let ghost s = v@.subrange(start as int, end as int);
    let slash = match find_char_range(v, start, end, '/') {
        Some(p) => start + p,
        None => return Err(()),
    };
    let vs = slash + 1;
    let ghost vers = v@.subrange(vs as int, end as int);
    assert(s.skip(slash - start + 1) == vers);
    assert(split_once(s, '/') == Some((s.take(slash - start), vers)));
    let dot = match find_char_range(v, vs, end, '.') {
        Some(p) => vs + p,
        None => return Err(()),
    };
    let ghost ma_s = v@.subrange(vs as int, dot as int);
    let ghost mi_s = v@.subrange(dot + 1, end as int);
    assert(vers.take(dot - vs) == ma_s);
    assert(vers.skip(dot - vs + 1) == mi_s);
    assert(split_once(vers, '.') == Some((ma_s, mi_s)));
    let major = parse_decimal_range(v, vs, dot, 255);
    let minor = parse_decimal_range(v, dot + 1, end, 255);
    match (major, minor) {
        (Some(ma), Some(mi)) => Ok(HttpVersion(ma as u8, mi as u8)),
        _ => Err(()),
    }
}

/// What a request line such as `GET / HTTP/1.1` reads as: the first three pieces between
/// spaces are the method, the path and the version; anything after them is ignored.
pub open spec fn request_line_spec(line: Seq<char>) -> Option<(Seq<char>, Seq<char>, (u8, u8))> {
    let words = split_char(line, ' ');
    if words.len() < 3 {
        None
    } else {
        match http_version_spec(words[2]) {
            Some(v) => Some((words[0], words[1], v)),
            None => None,
        }
    }
}

/// Parses the request line of a request, e.g. `GET / HTTP/1.1`.
pub fn parse_request_line(line: &[u8]) -> (r: Result<(String, String, HttpVersion), ()>)
    requires
        vstd::utf8::valid_utf8(line@),
    ensures
        match r {
            Ok((m, p, v)) => request_line_spec(vstd::utf8::decode_utf8(line@)) == Some(
                (m@, p@, (v.0, v.1)),
            ),
            Err(()) => request_line_spec(vstd::utf8::decode_utf8(line@)) is None,
        },
{
    match string_from_utf8(vstd::slice::slice_to_vec(line)) {
        Ok(text) => parse_request_text(text.as_str()),
        Err(_) => Err(()),
    }
}

/// Parses a request line that was already decoded from UTF-8.
pub(crate) fn parse_request_text(text: &str) -> (r: Result<(String, String, HttpVersion), ()>)
    ensures
        match r {
            Ok((m, p, v)) => request_line_spec(text@) == Some((m@, p@, (v.0, v.1))),
            Err(()) => request_line_spec(text@) is None,
        },
{
    let v = chars_of(text);
    let words = split_range(&v, 0, v.len(), ' ');
    assert(v@.subrange(0, v@.len() as int) == v@);
    if words.len() < 3 {
        return Err(());
    }
    let (m0, m1) = words[0];
    let (p0, p1) = words[1];
    let (v0, v1) = words[2];
    let version = parse_version_range(&v, v0, v1)?;
    let method = string_from_range(&v, m0, m1);
    let path = string_from_range(&v, p0, p1);
    Ok((method, path, version))
}

/// A request line made of a method and a path that hold no space, and the version
/// `HTTP/<major>.<minor>`, reads back as that method, path and version.
pub proof fn lemma_request_line_round_trip(method: Seq<char>, path: Seq<char>, major: u8, minor: u8)
    requires
        forall|j: int| 0 <= j < method.len() ==> method[j] != ' ',
        forall|j: int| 0 <= j < path.len() ==> path[j] != ' ',
    ensures
        request_line_spec(
            method + " "@ + path + " "@ + "HTTP/"@ + crate::decimal::decimal_chars(major as nat)
                + "."@ + crate::decimal::decimal_chars(minor as nat),
        ) == Some((method, path, (major, minor))),
{
    reveal_strlit(" ");
    reveal_strlit("HTTP/");
    reveal_strlit(".");
    let da = crate::decimal::decimal_chars(major as nat);
    let db = crate::decimal::decimal_chars(minor as nat);
    crate::decimal::lemma_decimal_chars_digits(major as nat);
    crate::decimal::lemma_decimal_chars_digits(minor as nat);
    crate::decimal::lemma_decimal_round_trip(major as nat, 255);
    crate::decimal::lemma_decimal_round_trip(minor as nat, 255);
    let version = "HTTP/"@ + da + "."@ + db;
    assert forall|j: int| 0 <= j < version.len() implies version[j] != ' ' by {
        if j < 5 {
            assert(version[j] == "HTTP/"@[j]);
        } else if j < 5 + da.len() {
            assert(version[j] == da[j - 5]);
            assert(crate::decimal::is_digit(da[j - 5]));
        } else if j == 5 + da.len() {
            assert(version[j] == '.');
        } else {
            assert(version[j] == db[j - 6 - da.len()]);
            assert(crate::decimal::is_digit(db[j - 6 - da.len()]));
        }
    }
    crate::text::lemma_split_char_none(version, ' ');
    crate::text::lemma_split_char_first(path, version, ' ');
    assert(path + " "@ + version == path + seq![' '] + version);
    crate::text::lemma_split_char_first(method, path + " "@ + version, ' ');
    let line = method + " "@ + path + " "@ + "HTTP/"@ + da + "."@ + db;
    assert(line == method + seq![' '] + (path + " "@ + version));
    let words = split_char(line, ' ');
    assert(words == seq![method, path, version]);
    assert("HTTP"@.len() == 4) by {
        reveal_strlit("HTTP");
    }
    let after = da + "."@ + db;
    assert forall|j: int| 0 <= j < 4 implies version[j] != '/' by {
        assert(version[j] == "HTTP/"@[j]);
    }
    assert(version[4] == '/');
    crate::text::lemma_char_pos_at(version, '/', 4);
    assert(version.skip(5) == after);
    assert forall|j: int| 0 <= j < da.len() implies after[j] != '.' by {
        assert(after[j] == da[j]);
        assert(crate::decimal::is_digit(da[j]));
    }
    assert(after[da.len() as int] == '.');
    crate::text::lemma_char_pos_at(after, '.', da.len() as int);
    assert(after.take(da.len() as int) == da);
    assert(after.skip(da.len() as int + 1) == db);
}

} // verus!
