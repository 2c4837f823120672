//! An answer made of plain text.

use vstd::prelude::*;
use crate::text::string_of;

verus! {

/// An answer made of plain text.
pub struct PlainTextOutput {
    /// The text to write to the output.
    pub data: String,
}

impl PlainTextOutput {
    /// Builds a `PlainTextOutput`.
    pub fn new(data: &str) -> (o: PlainTextOutput)
        ensures
            o.data@ == data@,
    {
        PlainTextOutput { data: string_of(data) }
    }
}

} // verus!
