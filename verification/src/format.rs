//! Format strings: templates that are filled from a list of values handed
//! over as a whole.

use crate::template::{
    pairs, render, scan, span_models, well_formed, TemplateModel, TemplateParseError,
    TemplatedString,
};
use core::ops::Range;
use vstd::prelude::*;

verus! {

/// Why a text is not a format string.
pub type TemplateError = TemplateParseError;

/// A text with named placeholders in braces.
#[derive(Debug)]
pub struct FormatString {
    template: TemplatedString,
}

impl View for FormatString {
    type V = TemplateModel;

    closed spec fn view(&self) -> TemplateModel {
        self.template@
    }
}

impl FormatString {
    /// Whether the placeholders are ranges of the text that do not overlap.
    pub open spec fn wf(&self) -> bool {
        well_formed(self@)
    }

    /// A format string made of a text and the placeholders found in it.
    pub fn from_data(original: &str, spans: Vec<(String, Range<usize>)>) -> (f: Self)
        requires
            well_formed(TemplateModel { text: original@, spans: span_models(spans@) }),
        ensures
            f@ == (TemplateModel { text: original@, spans: span_models(spans@) }),
            f.wf(),
    {
        Self { template: TemplatedString::new(original, spans) }
    }

    /// Reads a format string out of `s`; see [`TemplatedString::from_str`].
    pub fn from_str(s: &str) -> (r: Result<Self, TemplateError>)
        ensures
            match scan(s@) {
                Ok(spans) => r matches Ok(f) && f@ == (TemplateModel { text: s@, spans })
                    && f.wf(),
                Err(fault) => r matches Err(e) && e@ == fault,
            },
    {
        match TemplatedString::from_str(s) {
            Ok(template) => Ok(Self { template }),
            Err(e) => Err(e),
        }
    }

    /// The text with each placeholder replaced by the value that `values`
    /// gives for its key; a placeholder without a value stays as written.
    pub fn replace_with(&self, values: Vec<(String, String)>) -> (r: String)
        ensures
            r@ == render(self@, pairs(values@)),
    {
        self.template.replace_with(&values)
    }
}


impl core::str::FromStr for FormatString {
    type Err = TemplateError;

    /// Reads a format string out of `s`, as [`FormatString::from_str`] does.
    fn from_str(s: &str) -> (r: Result<Self, TemplateError>)
        ensures
            match scan(s@) {
                Ok(spans) => r matches Ok(f) && f@ == (TemplateModel { text: s@, spans }),
                Err(fault) => r matches Err(e) && e@ == fault,
            },
    {
        FormatString::from_str(s)
    }
}

} // verus!
