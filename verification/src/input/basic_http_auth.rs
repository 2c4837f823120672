//! Basic HTTP authentication, decoded with the `base64` crate.

use vstd::prelude::*;
use crate::input::{auth_payload, basic_auth_payload, credentials_from, split_credentials};
use crate::request::{header_value, Request};

verus! {

/// What `base64::decode` (standard alphabet, with padding) decodes the bytes to, or `None` where
/// it returns an error.
pub uninterp spec fn base64_decoded(input: Seq<u8>) -> Option<Seq<u8>>;

/// Decodes base64 text (`base64::decode`); an error becomes `None`.
#[verifier::external_body]
fn decode_base64(input: &str) -> (r: Option<Vec<u8>>)
    ensures
        r matches Some(v) ==> base64_decoded(vstd::utf8::encode_utf8(input@)) == Some(v@),
        r is None ==> base64_decoded(vstd::utf8::encode_utf8(input@)) is None,
{
    match base64::decode(input) {
        Ok(v) => Some(v),
        Err(_) => None,
    }
}

/// Credentials returned by `basic_http_auth`.
#[derive(Debug, Clone, PartialEq, Eq)]
pub struct HttpAuthCredentials {
    /// Login provided by the client.
    pub login: String,
    /// Password provided by the client.
    pub password: String,
}

/// The login and password of the credentials, if any.
pub open spec fn credentials_view(c: Option<HttpAuthCredentials>) -> Option<(Seq<char>, Seq<char>)> {
    match c {
        Some(c) => Some((c.login@, c.password@)),
        None => None,
    }
}

/// What `basic_http_auth` returns for a request with the given headers.
pub open spec fn basic_credentials(headers: Seq<(Seq<char>, Seq<char>)>) -> Option<
    (Seq<char>, Seq<char>),
> {
    match header_value(headers, "Authorization"@) {
        Some(h) => match auth_payload(h) {
            Some(v) => match base64_decoded(vstd::utf8::encode_utf8(v)) {
                Some(d) => credentials_from(d),
                None => None,
            },
            None => None,
        },
        None => None,
    }
}

/// Builds the credentials from the decoded payload of an `Authorization` header.
pub fn credentials_from_decoded(decoded: &[u8]) -> (r: Option<HttpAuthCredentials>)
    ensures
        credentials_view(r) == credentials_from(decoded@),
{
    match split_credentials(decoded) {
        Some((login, password)) => Some(HttpAuthCredentials { login, password }),
        None => None,
    }
}

/// Attempts to parse a `Authorization` header with basic HTTP auth.
///
/// If such a header is present and valid, a `HttpAuthCredentials` is returned.
pub fn basic_http_auth(request: &Request) -> (r: Option<HttpAuthCredentials>)
    ensures
        credentials_view(r) == basic_credentials(request@.headers),
{
    let payload = match basic_auth_payload(request) {
        Some(p) => p,
        None => return None,
    };
    match decode_base64(payload.as_str()) {
        Some(d) => credentials_from_decoded(d.as_slice()),
        None => None,
    }
}

} // verus!
