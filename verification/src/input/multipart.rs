//! Reading a `multipart/form-data` body, through the `multipart` crate.

use vstd::prelude::*;
use crate::request::{header_value, Request};
use crate::text::{char_pos, chars_of, find_char_range, find_chars, first_occurrence, string_from_range};

verus! {

/// The reader of a multipart body (`multipart::server::Multipart` over the body's bytes in a
/// `std::io::Cursor`), held unopened: the outside type shares its name with `Multipart`, so it
/// is kept in a struct whose content is hidden.
#[verifier::external_body]
pub struct MultipartReader {
    inner: multipart::server::Multipart<std::io::Cursor<Vec<u8>>>,
}

/// One field of a multipart body.
#[derive(Debug)]
pub struct MultipartField {
    /// The name of the field.
    pub name: String,
    /// The name of the file, for a file field.
    pub filename: Option<String>,
    /// The content type of the field, if it gives one.
    pub content_type: Option<String>,
    /// The content of the field.
    pub data: Vec<u8>,
}

/// A field as plain values: name, file name, content type and content.
pub type FieldView = (Seq<char>, Option<Seq<char>>, Option<Seq<char>>, Seq<u8>);

/// The characters of an optional string.
pub open spec fn opt_chars(s: Option<String>) -> Option<Seq<char>> {
    match s {
        Some(s) => Some(s@),
        None => None,
    }
}

/// A field as plain values.
pub open spec fn field_view(f: MultipartField) -> FieldView {
    (f.name@, opt_chars(f.filename), opt_chars(f.content_type), f.data@)
}

/// The fields that the `multipart` crate reads, one after the other, from a body with the given
/// boundary, up to the end of the body or to the first entry that it cannot read.
pub uninterp spec fn multipart_fields(body: Seq<u8>, boundary: Seq<char>) -> Seq<FieldView>;

/// The fields that the reader still yields, one after the other, up to the end of the body or
/// to the first entry that it cannot read.
pub uninterp spec fn reader_fields(reader: MultipartReader) -> Seq<FieldView>;

/// Starts reading a multipart body held in memory with the given boundary
/// (`multipart::server::Multipart::with_body` over a `std::io::Cursor`).
///
/// The contract names what the reader yields: the fields that the crate reads from these bytes
/// with this boundary.
#[verifier::external_body]
fn multipart_with_body(body: Vec<u8>, boundary: String) -> (m: MultipartReader)
    ensures
        reader_fields(m) == multipart_fields(body@, boundary@),
{
    let body = std::io::Cursor::new(body);
    MultipartReader { inner: multipart::server::Multipart::with_body(body, boundary) }
}

/// Reads the next field of a multipart body (`multipart::server::Multipart::read_entry`, then
/// the field's headers and its data read to the end); `None` at the end of the body or on an
/// error.
///
/// The contract states that the field is the first of those the reader still yields, and that
/// the reader then yields the rest; and that `None` comes when it yields no more.
#[verifier::external_body]
fn read_next_field(reader: &mut MultipartReader) -> (r: Option<MultipartField>)
    ensures
        match r {
            Some(f) => reader_fields(*old(reader)).len() > 0 && reader_fields(*old(reader))[0]
                == field_view(f) && reader_fields(*final(reader)) == reader_fields(
                *old(reader),
            ).drop_first(),
            None => reader_fields(*old(reader)).len() == 0,
        },
{
    let mut field = match reader.inner.read_entry() {
        Ok(Some(f)) => f,
        Ok(None) => return None,
        Err(_) => return None,
    };
    let mut data = Vec::new();
    std::io::Read::read_to_end(&mut field.data, &mut data).ok()?;
    let h = field.headers;
    let content_type = h.content_type.map(|m| m.to_string());
    Some(MultipartField { name: h.name.to_string(), filename: h.filename, content_type, data })
}

/// Error that can happen when decoding multipart data.
#[derive(Clone, Copy, Debug, PartialEq, Eq, Structural)]
pub enum MultipartError {
    /// The `Content-Type` header of the request indicates that it doesn't contain multipart data
    /// or is invalid.
    WrongContentType,
    /// Can't parse the body of the request because it was already extracted.
    BodyAlreadyExtracted,
}

/// The boundary that a `Content-Type` value gives: what follows the first `boundary=`, up to
/// the next `;` or the end.
pub open spec fn boundary_spec(content_type: Seq<char>) -> Option<Seq<char>> {
    match first_occurrence(content_type, "boundary="@) {
        None => None,
        Some(p) => {
            let rest = content_type.skip(p + 9);
            let q = char_pos(rest, ';');
            Some(
                if q < 0 {
                    rest
                } else {
                    rest.take(q)
                },
            )
        },
    }
}

/// The boundary of the multipart body that the request announces.
pub open spec fn request_boundary(h: Seq<(Seq<char>, Seq<char>)>) -> Option<Seq<char>> {
    match header_value(h, "Content-Type"@) {
        None => None,
        Some(c) => boundary_spec(c),
    }
}

/// Reads the boundary of the multipart body from the request's `Content-Type`.
pub fn multipart_boundary(request: &Request) -> (r: Option<String>)
    ensures
        match request_boundary(request@.headers) {
            Some(b) => r matches Some(s) && s@ == b,
            None => r is None,
        },
{
    let content_type = match request.header("Content-Type") {
        None => return None,
        Some(c) => c,
    };
    let v = chars_of(content_type);
    let n = v.len();
    let pat = chars_of("boundary=");
    proof {
        reveal_strlit("boundary=");
    }
    let start = match find_chars(&v, &pat) {
        Some(pos) => pos + 9,
        None => return None,
    };
    let ghost rest = v@.skip(start as int);
    assert(v@.subrange(start as int, n as int) == rest);
    let end = match find_char_range(&v, start, n, ';') {
        Some(q) => {
            assert(rest.take(q as int) == v@.subrange(start as int, start + q));
            start + q
        },
        None => n,
    };
    Some(string_from_range(&v, start, end))
}

/// A multipart body being read.
pub struct Multipart {
    inner: MultipartReader,
}

impl View for Multipart {
    type V = Seq<FieldView>;

    /// The fields still to be read.
    closed spec fn view(&self) -> Seq<FieldView> {
        reader_fields(self.inner)
    }
}

impl Multipart {
    /// Reads the next field of the body; `None` once all were read, or if the body is not
    /// valid multipart data.
    pub fn next(&mut self) -> (r: Option<MultipartField>)
        ensures
            match r {
                Some(f) => old(self)@.len() > 0 && old(self)@[0] == field_view(f)
                    && final(self)@ == old(self)@.drop_first(),
                None => old(self)@.len() == 0,
            },
    {
        read_next_field(&mut self.inner)
    }
}

/// Starts reading the multipart body of the request.
///
/// Fails with `WrongContentType` exactly when the request announces no boundary, and with
/// `BodyAlreadyExtracted` when the body was already taken.
pub fn get_multipart_input(request: &mut Request) -> (r: Result<Multipart, MultipartError>)
    ensures
        request_boundary(old(request)@.headers) is None ==> (r matches Err(
            MultipartError::WrongContentType,
        ) && final(request)@ == old(request)@),
        request_boundary(old(request)@.headers) is Some ==> final(request)@.data is None && (
        old(request)@.data is None <==> r matches Err(MultipartError::BodyAlreadyExtracted)) && (
        old(request)@.data is Some <==> r is Ok),
        final(request)@.headers == old(request)@.headers,
        r matches Ok(m) ==> m@ == multipart_fields(
            old(request)@.data->0,
            request_boundary(old(request)@.headers)->0,
        ),
{
    let boundary = match multipart_boundary(request) {
        Some(b) => b,
        None => return Err(MultipartError::WrongContentType),
    };
    let mut body = match request.data() {
        Some(b) => b,
        None => return Err(MultipartError::BodyAlreadyExtracted),
    };
    let mut data: Vec<u8> = Vec::new();
    body.read_to_end(&mut data);
    Ok(Multipart { inner: multipart_with_body(data, boundary) })
}

} // verus!
