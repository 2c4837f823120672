//! Reading the fields of a POST form (`application/x-www-form-urlencoded`).

use vstd::prelude::*;
use crate::request::{header_value, Request};
use crate::text::{str_eq, string_of};

verus! {

/// An error of `str::parse` for `bool` (`std::str::ParseBoolError`).
#[verifier::external_type_specification]
#[verifier::external_body]
pub struct ExParseBoolError(std::str::ParseBoolError);

/// An error of `str::parse` for integers (`std::num::ParseIntError`).
#[verifier::external_type_specification]
#[verifier::external_body]
pub struct ExParseIntError(std::num::ParseIntError);

/// An error of `str::parse` for floating-point numbers (`std::num::ParseFloatError`).
#[verifier::external_type_specification]
#[verifier::external_body]
pub struct ExParseFloatError(std::num::ParseFloatError);

/// Error that can happen when decoding POST data.
#[derive(Debug)]
pub enum PostError {
    /// The `Content-Type` header of the request indicates that it doesn't contain POST data.
    WrongContentType,
    /// Can't parse the body of the request because it was already extracted.
    BodyAlreadyExtracted,
    /// Could not read the body from the request. Also happens if the body is not valid UTF-8.
    IoError(std::io::Error),
    /// A field is missing from the received data.
    MissingField(String),
    /// Failed to parse a `bool` field.
    WrongDataTypeBool(std::str::ParseBoolError),
    /// Failed to parse an integer field.
    WrongDataTypeInt(std::num::ParseIntError),
    /// Failed to parse a floating-point field.
    WrongDataTypeFloat(std::num::ParseFloatError),
    /// Failed to parse a string field.
    NotUtf8(String),
}

impl From<std::io::Error> for PostError {
    fn from(err: std::io::Error) -> (r: PostError) {
        PostError::IoError(err)
    }
}

impl vstd::std_specs::convert::FromSpecImpl<std::io::Error> for PostError {
    open spec fn obeys_from_spec() -> bool {
        true
    }

    open spec fn from_spec(err: std::io::Error) -> PostError {
        PostError::IoError(err)
    }
}

impl From<std::str::ParseBoolError> for PostError {
    fn from(err: std::str::ParseBoolError) -> (r: PostError) {
        PostError::WrongDataTypeBool(err)
    }
}

impl vstd::std_specs::convert::FromSpecImpl<std::str::ParseBoolError> for PostError {
    open spec fn obeys_from_spec() -> bool {
        true
    }

    open spec fn from_spec(err: std::str::ParseBoolError) -> PostError {
        PostError::WrongDataTypeBool(err)
    }
}

impl From<std::num::ParseIntError> for PostError {
    fn from(err: std::num::ParseIntError) -> (r: PostError) {
        PostError::WrongDataTypeInt(err)
    }
}

impl vstd::std_specs::convert::FromSpecImpl<std::num::ParseIntError> for PostError {
    open spec fn obeys_from_spec() -> bool {
        true
    }

    open spec fn from_spec(err: std::num::ParseIntError) -> PostError {
        PostError::WrongDataTypeInt(err)
    }
}

impl From<std::num::ParseFloatError> for PostError {
    fn from(err: std::num::ParseFloatError) -> (r: PostError) {
        PostError::WrongDataTypeFloat(err)
    }
}

impl vstd::std_specs::convert::FromSpecImpl<std::num::ParseFloatError> for PostError {
    open spec fn obeys_from_spec() -> bool {
        true
    }

    open spec fn from_spec(err: std::num::ParseFloatError) -> PostError {
        PostError::WrongDataTypeFloat(err)
    }
}

/// The fields that `url::form_urlencoded::parse` reads from a form body, names and values
/// decoded.
pub uninterp spec fn form_fields(body: Seq<u8>) -> Seq<(Seq<char>, Seq<char>)>;

/// Reads the fields of a form body (`url::form_urlencoded::parse`, collected as owned
/// strings). The contract names the result.
#[verifier::external_body]
fn parse_form(body: &[u8]) -> (r: Vec<(String, String)>)
    ensures
        r@.map_values(|p: (String, String)| (p.0@, p.1@)) == form_fields(body@),
{
    url::form_urlencoded::parse(body).into_owned().collect()
}

/// The request says that its body is a form: its `Content-Type` is exactly
/// `application/x-www-form-urlencoded`.
pub open spec fn is_form(h: Seq<(Seq<char>, Seq<char>)>) -> bool {
    header_value(h, "Content-Type"@) == Some("application/x-www-form-urlencoded"@)
}

/// Attempts to decode the `POST` data received by the request.
///
/// If successful, returns the list of fields and values. Fails with `WrongContentType` when the
/// request's content type is not that of a form, and with `BodyAlreadyExtracted` when the body
/// was already taken.
pub fn get_raw_post_input(request: &mut Request) -> (r: Result<Vec<(String, String)>, PostError>)
    ensures
        !is_form(old(request)@.headers) ==> (r matches Err(PostError::WrongContentType)
            && final(request)@ == old(request)@),
        is_form(old(request)@.headers) ==> final(request)@.data is None && match old(
            request,
        )@.data {
            None => r matches Err(PostError::BodyAlreadyExtracted),
            Some(body) => (r matches Ok(fields) && fields@.map_values(
                |p: (String, String)| (p.0@, p.1@),
            ) == form_fields(body)),
        },
        final(request)@.headers == old(request)@.headers,
{
    let form = match request.header("Content-Type") {
        Some(h) => str_eq(h, "application/x-www-form-urlencoded"),
        None => false,
    };
    if !form {
        return Err(PostError::WrongContentType);
    }
    let mut body = match request.data() {
        Some(b) => b,
        None => return Err(PostError::BodyAlreadyExtracted),
    };
    let mut out: Vec<u8> = Vec::new();
    body.read_to_end(&mut out);
    assert(out@ =~= old(request)@.data->0);
    Ok(parse_form(out.as_slice()))
}

/// The state of the decoding of a form into a struct: the fields, and where the decoding is.
pub enum PostDecoder {
    /// The fields were handed on.
    Empty,
    /// Nothing decoded yet.
    Start(Vec<(String, String)>),
    /// Decoding the members of a struct.
    ExpectsStructMember(Vec<(String, String)>),
    /// Decoding the value of the named field.
    ExpectsData(Vec<(String, String)>, String),
}

/// The fields as pairs of character sequences.
pub open spec fn fields_view(v: Seq<(String, String)>) -> Seq<(Seq<char>, Seq<char>)> {
    v.map_values(|p: (String, String)| (p.0@, p.1@))
}

/// Index of the first field named `name`, or -1.
pub open spec fn field_pos(fields: Seq<(Seq<char>, Seq<char>)>, name: Seq<char>) -> int
    decreases fields.len(),
{
    if fields.len() == 0 {
        -1
    } else if fields[0].0 == name {
        0
    } else {
        let p = field_pos(fields.drop_first(), name);
        if p < 0 {
            -1
        } else {
            p + 1
        }
    }
}

/// `field_pos` is -1 or an index of the fields.
proof fn lemma_field_pos_range(fields: Seq<(Seq<char>, Seq<char>)>, name: Seq<char>)
    ensures
        -1 <= field_pos(fields, name) < fields.len(),
    decreases fields.len(),
{
    if fields.len() > 0 {
        lemma_field_pos_range(fields.drop_first(), name);
    }
}

/// The value of the first field named `name`.
pub open spec fn field_value(fields: Seq<(Seq<char>, Seq<char>)>, name: Seq<char>) -> Option<
    Seq<char>,
> {
    let p = field_pos(fields, name);
    if 0 <= p < fields.len() {
        Some(fields[p].1)
    } else {
        None
    }
}

/// Where the first field named `name` is, if any.
fn find_field(fields: &Vec<(String, String)>, name: &str) -> (r: Option<usize>)
    ensures
        match r {
            Some(i) => i < fields@.len() && field_pos(fields_view(fields@), name@) == i,
            None => field_pos(fields_view(fields@), name@) == -1,
        },
{
    let ghost fv = fields_view(fields@);
    proof {
        lemma_field_pos_range(fv, name@);
        assert(fv.skip(0) == fv);
    }
    let mut i: usize = 0;
    while i < fields.len()
        invariant
            i <= fields@.len(),
            fv == fields_view(fields@),
            field_pos(fv, name@) == if field_pos(fv.skip(i as int), name@) < 0 {
                -1
            } else {
                field_pos(fv.skip(i as int), name@) + i
            },
        decreases fields@.len() - i,
    {
        assert(fv.skip(i as int)[0] == fv[i as int]);
        assert(fv.skip(i as int).drop_first() == fv.skip(i + 1));
        proof {
            lemma_field_pos_range(fv.skip(i + 1), name@);
        }
        if str_eq(fields[i].0.as_str(), name) {
            return Some(i);
        }
        i += 1;
    }
    assert(fv.skip(i as int).len() == 0);
    None
}

impl PostDecoder {
    /// Reads the value of the field being decoded: the value of the first field with that
    /// name, or `MissingField` with the name.
    pub fn read_str(&self) -> (r: Result<String, PostError>)
        requires
            self is ExpectsData,
        ensures
            match self {
                PostDecoder::ExpectsData(data, name) => match field_value(
                    fields_view(data@),
                    name@,
                ) {
                    Some(v) => (r matches Ok(s) && s@ == v),
                    None => (r matches Err(PostError::MissingField(n)) && n@ == name@),
                },
                _ => false,
            },
    {
        match self {
            PostDecoder::ExpectsData(data, field_name) => {
                match find_field(data, field_name.as_str()) {
                    Some(i) => Ok(string_of(data[i].1.as_str())),
                    None => Err(PostError::MissingField(string_of(field_name.as_str()))),
                }
            },
            _ => Err(PostError::MissingField(String::new())),
        }
    }

    /// Whether a field with the name being decoded is present (what an optional field is read
    /// from).
    pub fn has_field(&self) -> (b: bool)
        requires
            self is ExpectsData,
        ensures
            match self {
                PostDecoder::ExpectsData(data, name) => b == field_value(
                    fields_view(data@),
                    name@,
                ) is Some,
                _ => false,
            },
    {
        match self {
            PostDecoder::ExpectsData(data, field_name) => find_field(
                data,
                field_name.as_str(),
            ).is_some(),
            _ => false,
        }
    }

    /// Starts decoding a struct: the fields move to the returned decoder, which expects the
    /// struct's members, and this one is left empty.
    pub fn read_struct(&mut self) -> (r: PostDecoder)
        requires
            *old(self) is Start,
        ensures
            *final(self) is Empty,
            match (*old(self), r) {
                (PostDecoder::Start(d), PostDecoder::ExpectsStructMember(e)) => fields_view(d@)
                    == fields_view(e@),
                _ => false,
            },
    {
        let mut taken = PostDecoder::Empty;
        std::mem::swap(&mut taken, self);
        match taken {
            PostDecoder::Start(data) => PostDecoder::ExpectsStructMember(data),
            other => other,
        }
    }

    /// Starts decoding the member `f_name` of a struct: the fields move to the returned
    /// decoder, which expects the data of that field, and this one is left empty.
    pub fn read_struct_field(&mut self, f_name: &str) -> (r: PostDecoder)
        requires
            *old(self) is ExpectsStructMember,
        ensures
            *final(self) is Empty,
            match (*old(self), r) {
                (PostDecoder::ExpectsStructMember(d), PostDecoder::ExpectsData(e, n)) => fields_view(
                    d@,
                ) == fields_view(e@) && n@ == f_name@,
                _ => false,
            },
    {
        let mut taken = PostDecoder::Empty;
        std::mem::swap(&mut taken, self);
        match taken {
            PostDecoder::ExpectsStructMember(data) => PostDecoder::ExpectsData(
                data,
                string_of(f_name),
            ),
            other => other,
        }
    }

    /// Ends decoding a member: the fields come back from the decoder of the member, and this
    /// one expects the next member.
    pub fn end_struct_field(&mut self, field: PostDecoder)
        requires
            field is ExpectsData,
        ensures
            match (field, *final(self)) {
                (PostDecoder::ExpectsData(d, _), PostDecoder::ExpectsStructMember(e)) => fields_view(
                    d@,
                ) == fields_view(e@),
                _ => false,
            },
    {
        match field {
            PostDecoder::ExpectsData(data, _) => {
                *self = PostDecoder::ExpectsStructMember(data);
            },
            _ => {
                *self = PostDecoder::ExpectsStructMember(Vec::new());
            },
        }
    }
}

} // verus!
