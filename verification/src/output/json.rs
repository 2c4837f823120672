//! An answer made of data encoded as JSON.

use vstd::prelude::*;

verus! {

/// An answer made of data that is sent encoded as JSON.
pub struct JsonOutput<D> {
    /// The data to write in the response.
    pub data: D,
}

impl<D> JsonOutput<D> {
    /// Builds a `JsonOutput`.
    pub fn new(data: D) -> (o: JsonOutput<D>)
        ensures
            o.data == data,
    {
        JsonOutput { data }
    }
}

} // verus!
