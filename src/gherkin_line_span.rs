//! A piece of a line (a tag or a table cell) with the column it starts at.
use vstd::prelude::*;

verus! {

/// A tag or a table cell taken from a line; `column` is 1-based and counts
/// from the start of the untrimmed line.
#[derive(Debug, PartialEq)]
pub struct GherkinLineSpan {
    pub column: usize,
    pub text: String,
}

impl GherkinLineSpan {
    pub fn new(column: usize, text: String) -> (r: GherkinLineSpan)
        ensures
            r.column == column,
            r.text == text,
    {
        GherkinLineSpan { column, text }
    }
}

} // verus!
