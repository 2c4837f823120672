//! Reading a JSON body that `rustc_serialize` decodes: the checks made, and the reading of the
//! body, before the decoding.

use vstd::prelude::*;
use crate::io::invalid_utf8_error;
use crate::input::json::is_json;
use crate::request::Request;
use crate::text::starts_with_str;
use crate::url_codec::string_from_utf8;

verus! {

/// Error that can happen when parsing the JSON input.
#[derive(Debug)]
pub enum JsonError {
    /// Can't parse the body of the request because it was already extracted.
    BodyAlreadyExtracted,
    /// Wrong content type.
    WrongContentType,
    /// Could not read the body from the request. Also happens if the body is not valid UTF-8.
    IoError(std::io::Error),
    /// Error while parsing.
    ParseError(::rustc_serialize::json::DecoderError),
}

impl From<std::io::Error> for JsonError {
    fn from(err: std::io::Error) -> (r: JsonError) {
        JsonError::IoError(err)
    }
}

impl vstd::std_specs::convert::FromSpecImpl<std::io::Error> for JsonError {
    open spec fn obeys_from_spec() -> bool {
        true
    }

    open spec fn from_spec(err: std::io::Error) -> JsonError {
        JsonError::IoError(err)
    }
}

impl From<::rustc_serialize::json::DecoderError> for JsonError {
    fn from(err: ::rustc_serialize::json::DecoderError) -> (r: JsonError) {
        JsonError::ParseError(err)
    }
}

impl vstd::std_specs::convert::FromSpecImpl<::rustc_serialize::json::DecoderError> for JsonError {
    open spec fn obeys_from_spec() -> bool {
        true
    }

    open spec fn from_spec(err: ::rustc_serialize::json::DecoderError) -> JsonError {
        JsonError::ParseError(err)
    }
}

/// The error that caused a `JsonError`.
pub enum JsonErrorCause<'a> {
    Io(&'a std::io::Error),
    Parse(&'a ::rustc_serialize::json::DecoderError),
}

impl JsonError {
    /// A short description of the error.
    pub fn description(&self) -> (d: &'static str)
        ensures
            d@ == match self {
                JsonError::BodyAlreadyExtracted => "the body of the request was already extracted"@,
                JsonError::WrongContentType => "the request didn't have a JSON content type"@,
                JsonError::IoError(_) =>
                    "could not read the body from the request, or could not execute the CGI program"@,
                JsonError::ParseError(_) => "error while parsing the JSON body"@,
            },
    {
        match self {
            JsonError::BodyAlreadyExtracted => "the body of the request was already extracted",
            JsonError::WrongContentType => "the request didn't have a JSON content type",
            JsonError::IoError(_) =>
                "could not read the body from the request, or could not execute the CGI program",
            JsonError::ParseError(_) => "error while parsing the JSON body",
        }
    }

    /// The error that caused this one, for the errors that carry one.
    pub fn cause(&self) -> (c: Option<JsonErrorCause<'_>>)
        ensures
            c is Some <==> (self is IoError || self is ParseError),
            c matches Some(JsonErrorCause::Io(e)) ==> self matches JsonError::IoError(inner)
                && *e == inner,
            c matches Some(JsonErrorCause::Parse(e)) ==> self matches JsonError::ParseError(inner)
                && *e == inner,
    {
        match self {
            JsonError::IoError(e) => Some(JsonErrorCause::Io(e)),
            JsonError::ParseError(e) => Some(JsonErrorCause::Parse(e)),
            _ => None,
        }
    }
}

/// Checks that a request holds JSON and reads its body as text, ready to be decoded.
///
/// Fails with `WrongContentType` when the `Content-Type` does not start with
/// `application/json`, with `BodyAlreadyExtracted` when the body was already taken, and with
/// `IoError` when the body is not valid UTF-8.
pub fn json_input_text(request: &mut Request) -> (r: Result<String, JsonError>)
    ensures
        !is_json(old(request)@.headers) ==> (r matches Err(JsonError::WrongContentType)
            && final(request)@ == old(request)@),
        is_json(old(request)@.headers) ==> final(request)@.data is None && match old(
            request,
        )@.data {
            None => r matches Err(JsonError::BodyAlreadyExtracted),
            Some(body) => if vstd::utf8::valid_utf8(body) {
                (r matches Ok(s) && s@ == vstd::utf8::decode_utf8(body))
            } else {
                r matches Err(JsonError::IoError(_))
            },
        },
        final(request)@.headers == old(request)@.headers,
{
    match request.header("Content-Type") {
        Some(header) => {
            if !starts_with_str(header, "application/json") {
                return Err(JsonError::WrongContentType);
            }
        },
        None => return Err(JsonError::WrongContentType),
    }
    let mut body = match request.data() {
        Some(b) => b,
        None => return Err(JsonError::BodyAlreadyExtracted),
    };
    let mut out: Vec<u8> = Vec::new();
    body.read_to_end(&mut out);
    assert(out@ =~= old(request)@.data->0);
    match string_from_utf8(out) {
        Ok(s) => Ok(s),
        Err(_) => Err(JsonError::IoError(invalid_utf8_error())),
    }
}

} // verus!
