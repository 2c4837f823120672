//! Reading a JSON body: the checks made before the body is decoded.
//!
//! Decoding the text into a value of the caller's type is done by `rustc_serialize`, by the
//! caller.

use vstd::prelude::*;
use crate::request::{header_value, Request};
use crate::text::{starts_with, starts_with_str};
use crate::url_codec::string_from_utf8;

pub mod rustc_serialize;

verus! {

/// An error of `rustc_serialize`'s JSON decoder (`rustc_serialize::json::DecoderError`).
#[verifier::external_type_specification]
#[verifier::external_body]
pub struct ExDecoderError(::rustc_serialize::json::DecoderError);

/// Error that can happen when parsing the JSON input.
#[derive(Debug)]
pub enum JsonError {
    /// Wrong content type.
    WrongContentType,
    /// The request's body was not UTF8.
    NotUtf8(std::string::FromUtf8Error),
    /// Error while parsing.
    ParseError(::rustc_serialize::json::DecoderError),
}

impl From<std::string::FromUtf8Error> for JsonError {
    fn from(err: std::string::FromUtf8Error) -> (r: JsonError) {
        JsonError::NotUtf8(err)
    }
}

impl vstd::std_specs::convert::FromSpecImpl<std::string::FromUtf8Error> for JsonError {
    open spec fn obeys_from_spec() -> bool {
        true
    }

    open spec fn from_spec(err: std::string::FromUtf8Error) -> JsonError {
        JsonError::NotUtf8(err)
    }
}

impl From<::rustc_serialize::json::DecoderError> for JsonError {
    fn from(err: ::rustc_serialize::json::DecoderError) -> (r: JsonError) {
        JsonError::ParseError(err)
    }
}

impl vstd::std_specs::convert::FromSpecImpl<::rustc_serialize::json::DecoderError> for JsonError {
    open spec fn obeys_from_spec() -> bool {
        true
    }

    open spec fn from_spec(err: ::rustc_serialize::json::DecoderError) -> JsonError {
        JsonError::ParseError(err)
    }
}

/// The request says that its body is JSON: its `Content-Type` starts with `application/json`.
pub open spec fn is_json(h: Seq<(Seq<char>, Seq<char>)>) -> bool {
    header_value(h, "Content-Type"@) matches Some(t) && starts_with(t, "application/json"@)
}

/// Whether the request says that its body is JSON: its `Content-Type` starts with
/// `application/json`.
pub fn is_json_request(request: &Request) -> (b: bool)
    ensures
        b == is_json(request@.headers),
{
    match request.header("Content-Type") {
        Some(header) => starts_with_str(header, "application/json"),
        None => false,
    }
}

/// Checks that a request holds JSON and returns its body as text, ready to be decoded.
///
/// Fails with `WrongContentType` when the `Content-Type` does not start with
/// `application/json`, and with `NotUtf8` when the body is not valid UTF-8. A request of JSON
/// must still hold its body.
pub fn get_json_text(request: &mut Request) -> (r: Result<String, JsonError>)
    requires
        is_json(old(request)@.headers) ==> old(request)@.data is Some,
    ensures
        !is_json(old(request)@.headers) ==> (r matches Err(JsonError::WrongContentType)
            && final(request)@ == old(request)@),
        is_json(old(request)@.headers) ==> final(request)@.data is None && {
            let body = old(request)@.data->0;
            if vstd::utf8::valid_utf8(body) {
                (r matches Ok(s) && s@ == vstd::utf8::decode_utf8(body))
            } else {
                r matches Err(JsonError::NotUtf8(_))
            }
        },
        final(request)@.headers == old(request)@.headers,
{
    if !is_json_request(request) {
        return Err(JsonError::WrongContentType);
    }
    let mut out: Vec<u8> = Vec::new();
    match request.data() {
        Some(mut body) => {
            body.read_to_end(&mut out);
        },
        None => {},
    }
    assert(out@ =~= old(request)@.data->0);
    match string_from_utf8(out) {
        Ok(s) => Ok(s),
        Err(e) => Err(JsonError::NotUtf8(e)),
    }
}

} // verus!
