//! An answer made of a template filled with data.

use vstd::prelude::*;
use crate::text::string_of;

verus! {

/// An answer made of the named template, filled with data.
pub struct TemplateOutput<D> {
    /// The name of the template.
    pub template_name: String,
    /// The data that fills the template.
    pub data: D,
}

impl<D> TemplateOutput<D> {
    /// Builds a `TemplateOutput`.
    pub fn new(template: &str, data: D) -> (o: TemplateOutput<D>)
        ensures
            o.template_name@ == template@,
            o.data == data,
    {
        TemplateOutput { template_name: string_of(template), data }
    }
}

} // verus!
