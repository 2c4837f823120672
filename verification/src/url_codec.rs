//! Percent-decoding of URLs and form data, through the `url` crate.

use vstd::prelude::*;
use crate::text::string_from_range;

verus! {

broadcast use vstd::seq_lib::group_seq_properties;

/// Value of an ASCII hexadecimal digit (`0-9`, `a-f`, `A-F`).
pub open spec fn hex_digit(b: u8) -> Option<u8> {
    if 48 <= b <= 57 {
        Some((b - 48) as u8)
    } else if 97 <= b <= 102 {
        Some((b - 87) as u8)
    } else if 65 <= b <= 70 {
        Some((b - 55) as u8)
    } else {
        None
    }
}

/// The bytes once each `%` followed by two hexadecimal digits is replaced with the byte that
/// these digits denote. A `%` that is not followed by two hexadecimal digits stays as it is.
pub open spec fn percent_decoded(s: Seq<u8>) -> Seq<u8>
    decreases s.len(),
{
    if s.len() == 0 {
        Seq::empty()
    } else if s[0] == 37 && s.len() >= 3 && hex_digit(s[1]) is Some && hex_digit(s[2]) is Some {
        seq![(hex_digit(s[1])->0 * 16 + hex_digit(s[2])->0) as u8] + percent_decoded(s.skip(3))
    } else {
        seq![s[0]] + percent_decoded(s.skip(1))
    }
}

/// What `String::from_utf8_lossy` makes of the bytes: valid UTF-8 sequences are decoded and each
/// invalid one becomes U+FFFD.
pub uninterp spec fn utf8_lossy(bytes: Seq<u8>) -> Seq<char>;

/// Percent-decodes bytes (`url::percent_encoding::percent_decode`, collected).
///
/// The contract states the decoding that the crate's `after_percent_sign` performs: `%` and two
/// hexadecimal digits of either case give one byte; anything else is copied.
#[verifier::external_body]
pub(crate) fn percent_decode_bytes(input: &[u8]) -> (r: Vec<u8>)
    ensures
        r@ == percent_decoded(input@),
{
    url::percent_encoding::percent_decode(input).collect()
}

/// Decodes bytes as UTF-8, replacing invalid sequences (`String::from_utf8_lossy`).
///
/// The contract names the result, and states what the documentation of `from_utf8_lossy` says
/// of valid input: it is decoded as it is.
#[verifier::external_body]
pub(crate) fn string_from_utf8_lossy(bytes: &[u8]) -> (s: String)
    ensures
        s@ == utf8_lossy(bytes@),
        vstd::utf8::valid_utf8(bytes@) ==> s@ == vstd::utf8::decode_utf8(bytes@),
{
    String::from_utf8_lossy(bytes).into_owned()
}

/// The error of decoding bytes that are not UTF-8 (`std::string::FromUtf8Error`).
#[verifier::external_type_specification]
#[verifier::external_body]
pub struct ExFromUtf8Error(std::string::FromUtf8Error);

/// Decodes UTF-8 bytes into a string (`String::from_utf8`).
///
/// The contract states what the documentation says: the bytes are decoded exactly when they
/// are valid UTF-8.
#[verifier::external_body]
pub(crate) fn string_from_utf8(bytes: Vec<u8>) -> (r: Result<String, std::string::FromUtf8Error>)
    ensures
        r is Ok <==> vstd::utf8::valid_utf8(bytes@),
        r matches Ok(s) ==> s@ == vstd::utf8::decode_utf8(bytes@),
{
    String::from_utf8(bytes)
}

/// The characters of `s` with each `+` replaced by a space.
pub open spec fn plus_to_space(s: Seq<char>) -> Seq<char> {
    s.map_values(|c: char| if c == '+' { ' ' } else { c })
}

/// What a URL component decodes to: percent-decoding of its UTF-8 bytes, then lossy UTF-8.
pub open spec fn decode_component(s: Seq<char>) -> Seq<char> {
    utf8_lossy(percent_decoded(vstd::utf8::encode_utf8(s)))
}

/// Percent-decodes the characters `v[start..end]`, then decodes the bytes as lossy UTF-8.
pub fn decode_range(v: &Vec<char>, start: usize, end: usize) -> (s: String)
    requires
        start <= end <= v@.len(),
    ensures
        s@ == decode_component(v@.subrange(start as int, end as int)),
{
    let raw = string_from_range(v, start, end);
    let bytes = raw.as_str().as_bytes();
    let decoded = percent_decode_bytes(bytes);
    string_from_utf8_lossy(decoded.as_slice())
}

/// Replaces each `+` of `v[start..end]` with a space, then decodes as `decode_range` does.
pub fn decode_form_range(v: &Vec<char>, start: usize, end: usize) -> (s: String)
    requires
        start <= end <= v@.len(),
    ensures
        s@ == decode_component(plus_to_space(v@.subrange(start as int, end as int))),
{
    let mut w: Vec<char> = Vec::new();
    let mut i = start;
    while i < end
        invariant
            start <= i <= end <= v@.len(),
            w@ == plus_to_space(v@.subrange(start as int, i as int)),
        decreases end - i,
    {
        let c = v[i];
        w.push(if c == '+' { ' ' } else { c });
        assert(plus_to_space(v@.subrange(start as int, i + 1)) == plus_to_space(
            v@.subrange(start as int, i as int),
        ).push(if c == '+' { ' ' } else { c }));
        i += 1;
    }
    let s = decode_range(&w, 0, w.len());
    assert(w@.subrange(0, w@.len() as int) == w@);
    s
}

} // verus!
