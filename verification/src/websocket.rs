//! Support for websockets: checking that a request asks for a websocket and building the
//! response that accepts it.
//!
//! The server written with rouille answers a websocket initialization request with the response
//! that `start()` builds; `start()` returns an error if the request is not one. The response
//! asks for the connection to be upgraded; what is then exchanged on the connection is up to the
//! server.
//!
//! # Subprotocols
//!
//! When you call `start()` you indicate which subprotocol the connection is going to use. It
//! must match one of the subprotocols that the client requested, otherwise `start()` returns an
//! error. You can also pass `None`, in which case the subprotocol is unknown to both sides.
//! `requested_protocols()` enumerates the subprotocols that the client requested.

use vstd::prelude::*;
use crate::content_encoding::nonempty_trimmed;
use crate::request::{header_value, Request};
use crate::response::{Response, ResponseBody};
use crate::text::{
    chars_of, eq_ignore_case, range_eq_ignore_case, split_char, split_range, str_eq,
    string_from_range, string_of, trim_range,
};

verus! {

broadcast use vstd::seq_lib::group_seq_properties;

/// Error that can happen when attempting to start websocket.
#[derive(Debug, Copy, Clone, PartialEq, Eq, Structural)]
pub enum WebsocketError {
    /// The request does not match a websocket request.
    ///
    /// The conditions are:
    /// - The method must be `GET`.
    /// - The request must include `Host`.
    /// - The `Connection` header must include `upgrade`.
    /// - The `Upgrade` header must include `websocket`.
    /// - The `Sec-WebSocket-Version` header must be `13`.
    /// - Must have a `Sec-WebSocket-Key` header.
    InvalidWebsocketRequest,
    /// The subprotocol passed to the function was not requested by the client.
    WrongSubprotocol,
}

/// The SHA-1 digest of the bytes, as `sha1::Sha1` computes it.
pub uninterp spec fn sha1_digest(data: Seq<u8>) -> Seq<u8>;

/// The standard base64 encoding of the bytes, padded with `=`, on a single line, as
/// `rustc_serialize`'s `to_base64` writes it.
pub uninterp spec fn base64_padded(data: Seq<u8>) -> Seq<char>;

/// Computes the SHA-1 digest of the bytes (`sha1::Sha1::from`, then `digest().bytes()`).
///
/// The contract names the digest and states its length, 20 bytes.
#[verifier::external_body]
fn sha1_bytes(data: &[u8]) -> (r: Vec<u8>)
    ensures
        r@ == sha1_digest(data@),
        r@.len() == 20,
{
    sha1::Sha1::from(data).digest().bytes().to_vec()
}

/// Encodes the bytes in standard base64 with padding and no line breaks
/// (`rustc_serialize::base64::ToBase64::to_base64`).
///
/// The contract names the encoding and states its length: four characters for each started
/// group of three bytes.
#[verifier::external_body]
fn to_base64_padded(data: &[u8]) -> (r: String)
    ensures
        r@ == base64_padded(data@),
        r@.len() == (data@.len() + 2) / 3 * 4,
{
    rustc_serialize::base64::ToBase64::to_base64(
        data,
        rustc_serialize::base64::Config {
            char_set: rustc_serialize::base64::CharacterSet::Standard,
            pad: true,
            line_length: None,
            newline: rustc_serialize::base64::Newline::LF,
        },
    )
}

/// The GUID that the websocket protocol appends to the key of the client.
pub open spec fn websocket_guid() -> Seq<char> {
    "258EAFA5-E914-47DA-95CA-C5AB0DC85B11"@
}

/// The `Sec-WebSocket-Accept` value that answers a `Sec-WebSocket-Key`: the base64 encoding of
/// the SHA-1 digest of the key followed by the GUID.
pub open spec fn accept_key(key: Seq<char>) -> Seq<char> {
    base64_padded(sha1_digest(vstd::utf8::encode_utf8(key + websocket_guid())))
}

/// Turns a `Sec-WebSocket-Key` into a `Sec-WebSocket-Accept`.
pub fn convert_key(input: &str) -> (r: String)
    ensures
        r@ == accept_key(input@),
{
    let mut data = vstd::slice::slice_to_vec(input.as_bytes());
    let guid = "258EAFA5-E914-47DA-95CA-C5AB0DC85B11";
    crate::bytes::push_bytes(&mut data, guid.as_bytes());
    proof {
        crate::text::lemma_encode_utf8_concat(input@, websocket_guid());
    }
    let digest = sha1_bytes(data.as_slice());
    to_base64_padded(digest.as_slice())
}

/// The subprotocols that a `Sec-WebSocket-Protocol` header names: its comma-separated
/// elements, trimmed, without the empty ones.
pub open spec fn protocol_list(headers: Seq<(Seq<char>, Seq<char>)>) -> Seq<Seq<char>> {
    match header_value(headers, "Sec-WebSocket-Protocol"@) {
        Some(h) => nonempty_trimmed(split_char(h, ',')),
        None => Seq::empty(),
    }
}

/// Iterator to the list of protocols requested by the user.
pub struct RequestedProtocolsIter {
    items: Vec<String>,
    pos: usize,
}

impl RequestedProtocolsIter {
    #[verifier::type_invariant]
    spec fn inv(&self) -> bool {
        self.pos <= self.items@.len()
    }

    /// The protocols that are still to come.
    pub closed spec fn remaining(&self) -> Seq<Seq<char>> {
        self.items@.map_values(|s: String| s@).skip(self.pos as int)
    }

    /// The next protocol.
    pub fn next(&mut self) -> (r: Option<String>)
        ensures
            old(self).remaining().len() == 0 ==> r is None && final(self).remaining() == old(
                self,
            ).remaining(),
            old(self).remaining().len() > 0 ==> (r matches Some(s) && s@ == old(self).remaining()[0]
                && final(self).remaining() == old(self).remaining().drop_first()),
    {
        proof {
            use_type_invariant(&*self);
        }
        if self.pos < self.items.len() {
            let s = string_of(self.items[self.pos].as_str());
            self.pos = self.pos + 1;
            Some(s)
        } else {
            None
        }
    }

    /// The number of protocols that remain, as the lower and the upper bound.
    pub fn size_hint(&self) -> (r: (usize, Option<usize>))
        ensures
            r.0 == self.remaining().len(),
            r.1 == Some(self.remaining().len() as usize),
    {
        proof {
            use_type_invariant(self);
        }
        let n = self.items.len() - self.pos;
        (n, Some(n))
    }

    /// The number of protocols that remain.
    pub fn len(&self) -> (n: usize)
        ensures
            n == self.remaining().len(),
    {
        proof {
            use_type_invariant(self);
        }
        self.items.len() - self.pos
    }
}

/// The subprotocols that the client requested, as strings.
fn protocols_of(request: &Request) -> (items: Vec<String>)
    ensures
        items@.map_values(|s: String| s@) == protocol_list(request@.headers),
{
    let h = match request.header("Sec-WebSocket-Protocol") {
        Some(h) => h,
        None => {
            let items: Vec<String> = Vec::new();
            assert(items@.map_values(|s: String| s@) =~= Seq::empty());
            return items;
        },
    };
    let v = chars_of(h);
    let pieces = split_range(&v, 0, v.len(), ',');
    assert(v@.subrange(0, v@.len() as int) == v@);
    let ghost sp = split_char(v@, ',');
    let mut items: Vec<String> = Vec::new();
    let mut k: usize = 0;
    while k < pieces.len()
        invariant
            k <= pieces@.len(),
            pieces@.len() == sp.len(),
            sp == split_char(v@, ','),
            forall|j: int|
                0 <= j < pieces@.len() ==> {
                    &&& (#[trigger] pieces@[j]).0 <= pieces@[j].1 <= v@.len()
                    &&& v@.subrange(pieces@[j].0 as int, pieces@[j].1 as int) == sp[j]
                },
            items@.map_values(|s: String| s@) == nonempty_trimmed(sp.take(k as int)),
        decreases pieces@.len() - k,
    {
        let (a, b) = pieces[k];
        let (lo, hi) = trim_range(&v, a, b);
        assert(sp.take(k + 1).drop_last() == sp.take(k as int));
        assert(sp.take(k + 1).last() == sp[k as int]);
        if lo < hi {
            let ghost before = items@;
            items.push(string_from_range(&v, lo, hi));
            assert(items@.map_values(|s: String| s@) == before.map_values(|s: String| s@).push(
                v@.subrange(lo as int, hi as int),
            ));
        }
        k += 1;
    }
    assert(sp.take(k as int) == sp);
    items
}

/// Returns a list of the websocket protocols requested by the client.
pub fn requested_protocols(request: &Request) -> (it: RequestedProtocolsIter)
    ensures
        it.remaining() == protocol_list(request@.headers),
{
    let items = protocols_of(request);
    assert(items@.map_values(|s: String| s@).skip(0) == items@.map_values(|s: String| s@));
    RequestedProtocolsIter { items, pos: 0 }
}

/// `pat` occurs in `s` when ASCII letters are compared without regard to case; for a
/// lower-case `pat`, this is `s.to_ascii_lowercase().contains(pat)`.
pub open spec fn contains_ignore_case(s: Seq<char>, pat: Seq<char>) -> bool {
    exists|i: int|
        0 <= i && i + pat.len() <= s.len() && #[trigger] eq_ignore_case(
            s.subrange(i, i + pat.len()),
            pat,
        )
}

/// Whether `pat` occurs in `s`, comparing ASCII letters without regard to case.
fn contains_ignoring_case(s: &str, pat: &str) -> (b: bool)
    ensures
        b == contains_ignore_case(s@, pat@),
{
    let v = chars_of(s);
    let p = chars_of(pat);
    let n = v.len();
    let m = p.len();
    if m > n {
        return false;
    }
    let mut i: usize = 0;
    while i <= n - m
        invariant
            n == v@.len(),
            m == p@.len(),
            m <= n,
            v@ == s@,
            p@ == pat@,
            forall|j: int|
                0 <= j < i ==> !#[trigger] eq_ignore_case(v@.subrange(j, j + m as int), p@),
        decreases n - m + 1 - i,
    {
        if range_eq_ignore_case(&v, i, i + m, &p) {
            return true;
        }
        i += 1;
    }
    proof {
        assert forall|j: int| 0 <= j && j + pat@.len() <= s@.len() implies !#[trigger] eq_ignore_case(
            s@.subrange(j, j + pat@.len()),
            pat@,
        ) by {
            assert(j < i);
        }
    }
    false
}

/// The headers of the response that accepts a websocket.
pub open spec fn accept_headers(subprotocol: Option<Seq<char>>, key: Seq<char>) -> Seq<
    (Seq<char>, Seq<char>),
> {
    seq![("Upgrade"@, "websocket"@)] + (match subprotocol {
        Some(sp) => seq![("Sec-Websocket-Protocol"@, sp)],
        None => Seq::empty(),
    }) + seq![("Sec-Websocket-Accept"@, accept_key(key))]
}

/// The request asks for a websocket: a `GET` with a `Host` header, whose `Connection` header
/// mentions `upgrade`, whose `Upgrade` header mentions `websocket`, and whose
/// `Sec-WebSocket-Version` is `13`.
pub open spec fn is_websocket_request(method: Seq<char>, h: Seq<(Seq<char>, Seq<char>)>) -> bool {
    &&& method == "GET"@
    &&& header_value(h, "Host"@) is Some
    &&& header_value(h, "Connection"@) matches Some(c) && contains_ignore_case(c, "upgrade"@)
    &&& header_value(h, "Upgrade"@) matches Some(u) && contains_ignore_case(u, "websocket"@)
    &&& header_value(h, "Sec-WebSocket-Version"@) == Some("13"@)
}

/// Builds the `Response` that initiates the websocket protocol: status 101, `Upgrade`,
/// the subprotocol if one was given, and the accept key; the response asks for the connection
/// to be upgraded.
///
/// Fails with `InvalidWebsocketRequest` when the request does not ask for a websocket or has no
/// `Sec-WebSocket-Key`, and with `WrongSubprotocol` when the given subprotocol is not among the
/// requested ones (this is checked before the key).
pub fn start(request: &Request, subprotocol: Option<&str>) -> (r: Result<Response, WebsocketError>)
    ensures
        !is_websocket_request(request@.method, request@.headers) ==> r == Err::<
            Response,
            WebsocketError,
        >(WebsocketError::InvalidWebsocketRequest),
        is_websocket_request(request@.method, request@.headers) ==> match subprotocol {
            Some(sp) if !protocol_list(request@.headers).contains(sp@) => r == Err::<
                Response,
                WebsocketError,
            >(WebsocketError::WrongSubprotocol),
            _ => match header_value(request@.headers, "Sec-WebSocket-Key"@) {
                None => r == Err::<Response, WebsocketError>(
                    WebsocketError::InvalidWebsocketRequest,
                ),
                Some(key) => r matches Ok(resp) && {
                    &&& resp.status_code == 101
                    &&& crate::request::headers_view(resp.headers@) == accept_headers(
                        match subprotocol {
                            Some(sp) => Some(sp@),
                            None => None,
                        },
                        key,
                    )
                    &&& resp.data@.data == Seq::<u8>::empty()
                    &&& resp.data@.length == Some(0usize)
                    &&& resp.upgrade
                },
            },
        },
{
    if !str_eq(request.method(), "GET") {
        return Err(WebsocketError::InvalidWebsocketRequest);
    }
    if request.header("Host").is_none() {
        return Err(WebsocketError::InvalidWebsocketRequest);
    }
    match request.header("Connection") {
        Some(h) => {
            if !contains_ignoring_case(h, "upgrade") {
                return Err(WebsocketError::InvalidWebsocketRequest);
            }
        },
        None => return Err(WebsocketError::InvalidWebsocketRequest),
    }
    match request.header("Upgrade") {
        Some(h) => {
            if !contains_ignoring_case(h, "websocket") {
                return Err(WebsocketError::InvalidWebsocketRequest);
            }
        },
        None => return Err(WebsocketError::InvalidWebsocketRequest),
    }
    match request.header("Sec-WebSocket-Version") {
        Some(h) => {
            if !str_eq(h, "13") {
                return Err(WebsocketError::InvalidWebsocketRequest);
            }
        },
        None => return Err(WebsocketError::InvalidWebsocketRequest),
    }
    if let Some(sp) = subprotocol {
        let protocols = protocols_of(request);
        let ghost pv = protocols@.map_values(|s: String| s@);
        let mut found = false;
        let mut i: usize = 0;
        while i < protocols.len()
            invariant
                i <= protocols@.len(),
                pv == protocols@.map_values(|s: String| s@),
                found == exists|j: int| 0 <= j < i && pv[j] == sp@,
            decreases protocols@.len() - i,
        {
            assert(pv[i as int] == protocols@[i as int]@);
            if str_eq(protocols[i].as_str(), sp) {
                found = true;
            }
            assert(found == exists|j: int| 0 <= j < i + 1 && pv[j] == sp@) by {
                if exists|j: int| 0 <= j < i + 1 && pv[j] == sp@ {
                    let j = choose|j: int| 0 <= j < i + 1 && pv[j] == sp@;
                    if j < i {
                        assert(exists|k: int| 0 <= k < i && pv[k] == sp@);
                    }
                }
            }
            i += 1;
        }
        if !found {
            return Err(WebsocketError::WrongSubprotocol);
        }
        assert(pv.contains(sp@));
    }
    let key_header = match request.header("Sec-WebSocket-Key") {
        Some(h) => h,
        None => return Err(WebsocketError::InvalidWebsocketRequest),
    };
    let key = convert_key(key_header);
    let mut headers: Vec<(String, String)> = Vec::new();
    headers.push((string_of("Upgrade"), string_of("websocket")));
    if let Some(sp) = subprotocol {
        headers.push((string_of("Sec-Websocket-Protocol"), string_of(sp)));
    }
    headers.push((string_of("Sec-Websocket-Accept"), key));
    assert(crate::request::headers_view(headers@) =~= accept_headers(
        match subprotocol {
            Some(sp) => Some(sp@),
            None => None,
        },
        key_header@,
    ));
    Ok(Response { status_code: 101, headers, data: ResponseBody::empty(), upgrade: true })
}

} // verus!
