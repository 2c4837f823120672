//! The I/O errors that the library hands on.

use vstd::prelude::*;

verus! {

/// An I/O error (`std::io::Error`), carried through unopened.
#[verifier::external_type_specification]
#[verifier::external_body]
pub struct ExIoError(std::io::Error);

/// The error that reading a body into a string gives when the body is not UTF-8
/// (`std::io::Error::new` with `ErrorKind::InvalidData`).
#[verifier::external_body]
pub(crate) fn invalid_utf8_error() -> (e: std::io::Error) {
    std::io::Error::new(std::io::ErrorKind::InvalidData, "stream did not contain valid UTF-8")
}

} // verus!
