//! Analyze the request's headers and body.
//!
//! This module provides functions and sub-modules that allow you to easily analyze or parse the
//! request's headers and body.

pub mod basic_http_auth;
pub mod cookies;
pub mod ignore;
pub mod json;
pub mod multipart;
pub mod plain;
pub mod post;
pub mod session;

pub use self::session::{generate_session_id, Session, SessionsManager};

use vstd::prelude::*;
use crate::request::{header_value, Request};
use crate::text::{byte_pos, lemma_byte_pos, bytes_range, char_pos, chars_of, find_byte, find_char_range, range_equals, string_from_range};
use crate::url_codec::string_from_utf8;

verus! {

broadcast use vstd::seq_lib::group_seq_properties;

/// What `rustc_serialize`'s `FromBase64::from_base64` decodes the bytes to, or `None` where it
/// returns an error.
pub uninterp spec fn rustc_base64_decoded(input: Seq<u8>) -> Option<Seq<u8>>;

/// Decodes base64 text (`rustc_serialize::base64::FromBase64::from_base64`); an error becomes
/// `None`.
#[verifier::external_body]
fn from_base64(input: &str) -> (r: Option<Vec<u8>>)
    ensures
        r matches Some(v) ==> rustc_base64_decoded(vstd::utf8::encode_utf8(input@)) == Some(v@),
        r is None ==> rustc_base64_decoded(vstd::utf8::encode_utf8(input@)) is None,
{
    match rustc_serialize::base64::FromBase64::from_base64(input) {
        Ok(v) => Some(v),
        Err(_) => None,
    }
}

/// The payload of an `Authorization` header of the basic scheme: what follows `Basic `.
pub open spec fn auth_payload(h: Seq<char>) -> Option<Seq<char>> {
    let p = char_pos(h, ' ');
    if p >= 0 && h.take(p) == "Basic"@ {
        Some(h.skip(p + 1))
    } else {
        None
    }
}

/// The login and password held by decoded basic credentials: the bytes before the first `:` and
/// the bytes after it, both valid UTF-8.
pub open spec fn credentials_from(d: Seq<u8>) -> Option<(Seq<char>, Seq<char>)> {
    let p = byte_pos(d, 58);
    if p >= 0 && vstd::utf8::valid_utf8(d.take(p)) && vstd::utf8::valid_utf8(d.skip(p + 1)) {
        Some((vstd::utf8::decode_utf8(d.take(p)), vstd::utf8::decode_utf8(d.skip(p + 1))))
    } else {
        None
    }
}

/// Decoded credentials split at the first `:`: for the bytes `login ++ ":" ++ password`, where
/// the login holds no `:` (the password may) and both are valid UTF-8, they read as that login
/// and that password.
pub proof fn lemma_credentials_split_at_first_colon(login: Seq<u8>, password: Seq<u8>)
    requires
        forall|j: int| 0 <= j < login.len() ==> login[j] != 58,
        vstd::utf8::valid_utf8(login),
        vstd::utf8::valid_utf8(password),
    ensures
        credentials_from(login + seq![58u8] + password) == Some(
            (vstd::utf8::decode_utf8(login), vstd::utf8::decode_utf8(password)),
        ),
{
    let d = login + seq![58u8] + password;
    lemma_byte_pos(d, 58);
    assert(d[login.len() as int] == 58);
    assert forall|j: int| 0 <= j < login.len() implies d[j] != 58 by {
        assert(d[j] == login[j]);
    }
    assert(byte_pos(d, 58) == login.len());
    assert(d.take(login.len() as int) == login);
    assert(d.skip(login.len() + 1int) == password);
}

/// The payload of the `Authorization` header of a request, if it uses the basic scheme.
pub fn basic_auth_payload(request: &Request) -> (r: Option<String>)
    ensures
        match header_value(request@.headers, "Authorization"@) {
            Some(h) => match auth_payload(h) {
                Some(v) => r matches Some(s) && s@ == v,
                None => r is None,
            },
            None => r is None,
        },
{
    let h = match request.header("Authorization") {
        None => return None,
        Some(h) => h,
    };
    let v = chars_of(h);
    proof {
        assert(v@.subrange(0, v@.len() as int) == v@);
    }
    match find_char_range(&v, 0, v.len(), ' ') {
        None => None,
        Some(p) => {
            let basic = chars_of("Basic");
            proof {
                assert(v@.subrange(0, p as int) == v@.take(p as int));
                assert(v@.subrange(p + 1, v@.len() as int) == v@.skip(p + 1));
            }
            if range_equals(&v, 0, p, &basic) {
                Some(string_from_range(&v, p + 1, v.len()))
            } else {
                None
            }
        },
    }
}

/// Splits decoded basic credentials into login and password.
pub fn split_credentials(decoded: &[u8]) -> (r: Option<(String, String)>)
    ensures
        match credentials_from(decoded@) {
            Some(c) => r matches Some(p) && p.0@ == c.0 && p.1@ == c.1,
            None => r is None,
        },
{
    let p = match find_byte(decoded, 58) {
        Some(p) => p,
        None => return None,
    };
    let n = decoded.len();
    assert(p < n);
    let login = bytes_range(decoded, 0, p);
    let pass = bytes_range(decoded, p + 1, decoded.len());
    proof {
        assert(decoded@.subrange(0, p as int) == decoded@.take(p as int));
        assert(decoded@.subrange(p + 1, decoded@.len() as int) == decoded@.skip(p + 1));
    }
    let login = match string_from_utf8(login) {
        Ok(l) => l,
        Err(_) => return None,
    };
    let pass = match string_from_utf8(pass) {
        Ok(p) => p,
        Err(_) => return None,
    };
    Some((login, pass))
}

/// Credentials returned by `get_basic_http_auth`.
#[derive(Debug, Clone, PartialEq, Eq)]
pub struct HttpAuthCredentials {
    /// Login provided by the client.
    pub login: String,
    /// Password provided by the client.
    pub password: String,
}

/// The login and password of the credentials, if any.
pub open spec fn credentials_view(c: Option<HttpAuthCredentials>) -> Option<(Seq<char>, Seq<char>)> {
    match c {
        Some(c) => Some((c.login@, c.password@)),
        None => None,
    }
}

/// What `get_basic_http_auth` returns for a request with the given headers.
pub open spec fn basic_credentials(headers: Seq<(Seq<char>, Seq<char>)>) -> Option<
    (Seq<char>, Seq<char>),
> {
    match header_value(headers, "Authorization"@) {
        Some(h) => match auth_payload(h) {
            Some(v) => match rustc_base64_decoded(vstd::utf8::encode_utf8(v)) {
                Some(d) => credentials_from(d),
                None => None,
            },
            None => None,
        },
        None => None,
    }
}

/// Builds the credentials from the decoded payload of an `Authorization` header.
pub fn credentials_from_decoded(decoded: &[u8]) -> (r: Option<HttpAuthCredentials>)
    ensures
        credentials_view(r) == credentials_from(decoded@),
{
    match split_credentials(decoded) {
        Some((login, password)) => Some(HttpAuthCredentials { login, password }),
        None => None,
    }
}

/// Attempts to parse a `Authorization` header with basic HTTP auth.
///
/// If such a header is present and valid, a `HttpAuthCredentials` is returned.
pub fn get_basic_http_auth(request: &Request) -> (r: Option<HttpAuthCredentials>)
    ensures
        credentials_view(r) == basic_credentials(request@.headers),
{
    let payload = match basic_auth_payload(request) {
        Some(p) => p,
        None => return None,
    };
    match from_base64(payload.as_str()) {
        Some(d) => credentials_from_decoded(d.as_slice()),
        None => None,
    }
}

/// Attempts to parse the list of cookies from the request.
///
/// Returns a pair of `(key, value)`. If the header is missing or malformed, an empty
/// `Vec` is returned.
pub fn get_cookies(request: &Request) -> (r: Vec<(String, String)>)
    ensures
        crate::request::headers_view(r@) == cookies::request_cookies(request@.headers),
{
    cookies::cookies(request)
}

} // verus!
