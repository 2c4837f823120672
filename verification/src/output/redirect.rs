//! An answer that redirects the client.

use vstd::prelude::*;
use crate::text::string_of;

verus! {

/// An answer that redirects the client to another URL.
pub struct RedirectOutput {
    /// The URL to redirect to.
    pub location: String,
    /// The status code to use.
    pub status_code: u16,
}

impl RedirectOutput {
    /// Builds a `RedirectOutput`.
    pub fn new(location: &str, status_code: u16) -> (o: RedirectOutput)
        ensures
            o.location@ == location@,
            o.status_code == status_code,
    {
        RedirectOutput { location: string_of(location), status_code }
    }
}

} // verus!
