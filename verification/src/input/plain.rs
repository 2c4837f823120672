//! Reading the body of a request as plain text.

use vstd::prelude::*;
use crate::io::invalid_utf8_error;
use crate::request::{header_value, Request};
use crate::text::starts_with;
use crate::url_codec::string_from_utf8;

verus! {

/// Error that can happen when reading the body of a request as plain text.
#[derive(Debug)]
pub enum PlainTextError {
    /// Can't parse the body of the request because it was already extracted.
    BodyAlreadyExtracted,
    /// Wrong content type.
    WrongContentType,
    /// Could not read the body from the request. Also happens if the body is not valid UTF-8.
    IoError(std::io::Error),
}

impl From<std::io::Error> for PlainTextError {
    fn from(err: std::io::Error) -> (r: PlainTextError) {
        PlainTextError::IoError(err)
    }
}

impl vstd::std_specs::convert::FromSpecImpl<std::io::Error> for PlainTextError {
    open spec fn obeys_from_spec() -> bool {
        true
    }

    open spec fn from_spec(err: std::io::Error) -> PlainTextError {
        PlainTextError::IoError(err)
    }
}

/// The request says that its body is plain text: its `Content-Type` starts with `text/plain`.
pub open spec fn is_plain_text(h: Seq<(Seq<char>, Seq<char>)>) -> bool {
    header_value(h, "Content-Type"@) matches Some(t) && starts_with(t, "text/plain"@)
}

/// Reads plain text from the body of a request.
///
/// Fails with `WrongContentType` when the `Content-Type` does not start with `text/plain`, with
/// `BodyAlreadyExtracted` when the body was already taken, and with `IoError` when the body is
/// not valid UTF-8.
pub fn plain_text_body(request: &mut Request) -> (r: Result<String, PlainTextError>)
    ensures
        !is_plain_text(old(request)@.headers) ==> (r matches Err(PlainTextError::WrongContentType)
            && final(request)@ == old(request)@),
        is_plain_text(old(request)@.headers) && old(request)@.data is None ==> (r matches Err(
            PlainTextError::BodyAlreadyExtracted,
        ) && final(request)@ == old(request)@),
        is_plain_text(old(request)@.headers) && old(request)@.data is Some ==> final(request)@.data is None && {
            let body = old(request)@.data->0;
            if vstd::utf8::valid_utf8(body) {
                (r matches Ok(s) && s@ == vstd::utf8::decode_utf8(body))
            } else {
                r matches Err(PlainTextError::IoError(_))
            }
        },
        final(request)@.headers == old(request)@.headers,
        final(request)@.method == old(request)@.method,
        final(request)@.url == old(request)@.url,
{
    match request.header("Content-Type") {
        Some(header) => {
            if !crate::text::starts_with_str(header, "text/plain") {
                return Err(PlainTextError::WrongContentType);
            }
        },
        None => return Err(PlainTextError::WrongContentType),
    }
    let mut body = match request.data() {
        Some(b) => b,
        None => return Err(PlainTextError::BodyAlreadyExtracted),
    };
    let mut out: Vec<u8> = Vec::new();
    body.read_to_end(&mut out);
    assert(out@ =~= old(request)@.data->0);
    match string_from_utf8(out) {
        Ok(s) => Ok(s),
        Err(_) => Err(PlainTextError::IoError(invalid_utf8_error())),
    }
}

} // verus!
