//! What a route handler answers with.

use vstd::prelude::*;

pub mod json;
pub mod plain_text;
pub mod redirect;
pub mod template;

pub use self::json::JsonOutput;
pub use self::plain_text::PlainTextOutput;
pub use self::redirect::RedirectOutput;
pub use self::template::TemplateOutput;

verus! {

/// A handler's answer that produces no output.
#[derive(Debug, Copy, Clone, PartialEq, Eq, Structural)]
pub enum NoOutput {
    /// The route does not apply: the next one should be tried.
    IgnoreRoute,
}

} // verus!
