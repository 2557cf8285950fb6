//! Hands out the lines of a document one token at a time, numbered from 1,
//! and a token without a line once they are used up.
use vstd::prelude::*;
use crate::ast::Location;
use crate::gherkin_dialect::{GherkinDialect, GherkinDialectProvider};
use crate::gherkin_line::GherkinLine;
use crate::parser::TokenType;
use crate::token::Token;

verus! {

/// Reads tokens off a list of lines, in order and without going back. Each
/// token it hands out carries the default dialect of the table it was made
/// with.
pub struct TokenScanner<'a> {
    line_number: usize,
    lines: Vec<String>,
    dialect: &'a GherkinDialect,
}

impl<'a> TokenScanner<'a> {
    #[verifier::type_invariant]
    closed spec fn inv(&self) -> bool {
        &&& self.line_number <= self.lines@.len() < usize::MAX
        &&& forall|i: int| 0 <= i < self.lines@.len() ==> (#[trigger] self.lines@[i])@.len() <= isize::MAX
    }

    /// The lines, in order.
    pub closed spec fn lines(&self) -> Seq<Seq<char>> {
        self.lines.deep_view()
    }

    /// The dialect that new tokens carry.
    pub closed spec fn dialect(&self) -> &'a GherkinDialect {
        self.dialect
    }

    /// How many lines were handed out.
    pub closed spec fn position(&self) -> nat {
        self.line_number as nat
    }

    /// A scanner over `lines` whose tokens carry the default dialect of
    /// `provider`; no line can be longer than a `String` can be.
    pub fn new(lines: Vec<String>, provider: &'a GherkinDialectProvider) -> (r: TokenScanner<'a>)
        requires
            lines@.len() < usize::MAX,
            forall|i: int| 0 <= i < lines@.len() ==> (#[trigger] lines@[i])@.len() <= isize::MAX,
            provider.has_language(provider.default_code()),
        ensures
            r.lines() == lines.deep_view(),
            r.position() == 0,
            *r.dialect() == provider.dialect_for(provider.default_code()),
    {
        let dialect = match provider.get_default(Location::new(1, 0)) {
            Ok(d) => d,
            Err(_) => {
                proof {
                    assert(false);
                }
                vstd::pervasive::unreached()
            },
        };
        TokenScanner { lines, line_number: 0, dialect }
    }

    /// The next line as an unclassified token located at its number and
    /// column 0; past the last line, a token without a line at the number
    /// after it.
    pub fn read(&mut self) -> (r: Token<'a>)
        ensures
            final(self).lines() == old(self).lines(),
            final(self).dialect() == old(self).dialect(),
            old(self).position() <= old(self).lines().len(),
            final(self).position() <= final(self).lines().len(),
            r.matched_type == TokenType::Initial,
            r.matched_keyword is None,
            r.matched_text is None,
            r.matched_items is None,
            r.matched_indent == 0,
            r.matched_gherkin_dialect == old(self).dialect(),
            r.location.column == 0,
            old(self).position() < old(self).lines().len() ==> {
                &&& final(self).position() == old(self).position() + 1
                &&& r.location.line == final(self).position()
                &&& r.line matches Some(l) && l.text() == old(self).lines()[old(self).position() as int]
                    && l.number() == final(self).position()
            },
            old(self).position() == old(self).lines().len() ==> {
                &&& final(self).position() == old(self).position()
                &&& r.location.line == old(self).lines().len() + 1
                &&& r.line is None
            },
    {
        proof {
            use_type_invariant(&*self);
        }
        if self.line_number < self.lines.len() {
            let text = self.lines[self.line_number].clone();
            assert(text@ == self.lines.deep_view()[self.line_number as int]);
            self.line_number = self.line_number + 1;
            let location = Location::new(self.line_number, 0);
            Token::new(Some(GherkinLine::new(text, self.line_number as u64)), location, self.dialect)
        } else {
            Token::new(None, Location::new(self.lines.len() + 1, 0), self.dialect)
        }
    }
}

} // verus!
