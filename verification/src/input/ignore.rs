//! Input that is not read.

use vstd::prelude::*;

verus! {

/// Types that a handler can take as the input of a request.
pub trait Input: Sized {
    /// Whether a body of the given content type can be read as this input.
    fn matches_content_type(content_type: &str) -> bool;

    /// Reads the input out of the body of the request.
    fn process(body: Vec<u8>) -> Result<Self, ()>;
}

/// "Null" input data. Matches any user input. Use this when you don't need user input.
pub struct Ignore;

impl Input for Ignore {
    fn matches_content_type(content_type: &str) -> (b: bool)
        ensures
            b,
    {
        true
    }

    fn process(body: Vec<u8>) -> (r: Result<Ignore, ()>)
        ensures
            r is Ok,
    {
        Ok(Ignore)
    }
}

} // verus!
