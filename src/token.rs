//! A line of input together with what the matcher found in it.
use vstd::prelude::*;
use crate::ast::Location;
use crate::gherkin_dialect::GherkinDialect;
use crate::gherkin_line::GherkinLine;
use crate::gherkin_line_span::GherkinLineSpan;
use crate::parser::TokenType;

verus! {

/// A line (none at the end of input) and, once it is classified, its type,
/// keyword, text, items, indentation and the dialect it was read in.
#[derive(Debug, PartialEq)]
pub struct Token<'a> {
    pub line: Option<GherkinLine>,
    pub matched_type: TokenType,
    pub matched_keyword: Option<String>,
    pub matched_text: Option<String>,
    pub matched_items: Option<Vec<GherkinLineSpan>>,
    pub matched_indent: usize,
    pub matched_gherkin_dialect: &'a GherkinDialect,
    pub location: Location,
}

impl<'a> Token<'a> {
    /// A token not classified yet, in `dialect` until a rule matches it.
    pub fn new(line: Option<GherkinLine>, location: Location, dialect: &'a GherkinDialect) -> (r: Token<'a>)
        ensures
            r.line == line,
            r.location == location,
            r.matched_type == TokenType::Initial,
            r.matched_keyword.is_none(),
            r.matched_text.is_none(),
            r.matched_items.is_none(),
            r.matched_indent == 0,
            r.matched_gherkin_dialect == dialect,
    {
        Token {
            line,
            location,
            matched_type: TokenType::Initial,
            matched_keyword: None,
            matched_items: None,
            matched_text: None,
            matched_indent: 0,
            matched_gherkin_dialect: dialect,
        }
    }

    pub fn is_eof(&self) -> (r: bool)
        ensures
            r == self.line.is_none(),
    {
        self.line.is_none()
    }

    /// The whole text of the line, if there is one.
    pub fn get_token_value(&self) -> (r: Option<String>)
        ensures
            match self.line {
                Some(l) => r is Some && r->0@ == l.text(),
                None => r is None,
            },
    {
        match &self.line {
            Some(line) => {
                let t = line.get_line_text(0);
                assert(line.text().subrange(0, line.text().len() as int) == line.text());
                Some(t)
            },
            None => None,
        }
    }
}

} // verus!
