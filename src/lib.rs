//! Gherkin feature files: lines, dialects, token matching, and the parser
//! that turns them into a feature tree.
use vstd::prelude::*;

pub mod ast;
pub mod gherkin_dialect;
pub mod gherkin_line;
pub mod gherkin_line_span;
pub mod parser;
pub mod text;
pub mod token;
pub mod token_matcher;
pub mod token_scanner;

use crate::ast::Location;
use crate::parser::TokenType;
use crate::text::append_text;
use crate::token::Token;

verus! {

/// An error and where it arose.
#[derive(Debug, PartialEq)]
pub struct ParserError<'a> {
    pub location: Location,
    pub kind: ErrorKind<'a>,
}

/// What went wrong.
#[derive(Debug, PartialEq)]
pub enum ErrorKind<'a> {
    AstBuilder(String),
    ResourceNotFound(String),
    MalformedResource(String),
    NoSuchLanguage(String),
    UnexpectedToken(Token<'a>, Vec<String>, String),
    UnexpectedEOF(Token<'a>, Vec<String>, String),
    CompositeError(Vec<ParserError<'a>>),
}

impl<'a> ParserError<'a> {
    pub fn new(kind: ErrorKind<'a>, location: Location) -> (r: ParserError<'a>)
        ensures
            r.kind == kind,
            r.location == location,
    {
        ParserError { kind, location }
    }
}

/// The name of a token type.
pub open spec fn token_type_text(t: TokenType) -> Seq<char> {
    match t {
        TokenType::Initial => "None"@,
        TokenType::EOF => "EOF"@,
        TokenType::Empty => "Empty"@,
        TokenType::Comment => "Comment"@,
        TokenType::TagLine => "TagLine"@,
        TokenType::FeatureLine => "FeatureLine"@,
        TokenType::BackgroundLine => "BackgroundLine"@,
        TokenType::ScenarioLine => "ScenarioLine"@,
        TokenType::ScenarioOutlineLine => "ScenarioOutlineLine"@,
        TokenType::ExamplesLine => "ExamplesLine"@,
        TokenType::StepLine => "StepLine"@,
        TokenType::DocStringSeparator => "DocStringSeparator"@,
        TokenType::TableRow => "TableRow"@,
        TokenType::Language => "Language"@,
        TokenType::Other => "Other"@,
    }
}

fn token_type_name(t: TokenType) -> (r: &'static str)
    ensures
        r@ == token_type_text(t),
{
    match t {
        TokenType::Initial => "None",
        TokenType::EOF => "EOF",
        TokenType::Empty => "Empty",
        TokenType::Comment => "Comment",
        TokenType::TagLine => "TagLine",
        TokenType::FeatureLine => "FeatureLine",
        TokenType::BackgroundLine => "BackgroundLine",
        TokenType::ScenarioLine => "ScenarioLine",
        TokenType::ScenarioOutlineLine => "ScenarioOutlineLine",
        TokenType::ExamplesLine => "ExamplesLine",
        TokenType::StepLine => "StepLine",
        TokenType::DocStringSeparator => "DocStringSeparator",
        TokenType::TableRow => "TableRow",
        TokenType::Language => "Language",
        TokenType::Other => "Other",
    }
}

/// What `{:?}` prints for a list of strings: the strings quoted and
/// escaped, between brackets.
pub uninterp spec fn debug_list(names: Seq<Seq<char>>) -> Seq<char>;

/// Relies on the `Debug` form of `Vec<String>` (`format!("{:?}")`), which
/// depends on the strings alone.
#[verifier::external_body]
fn debug_names(names: &Vec<String>) -> (r: String)
    ensures
        r@ == debug_list(names.deep_view()),
{
    format!("{:?}", names)
}

/// How a token is shown in a message: its type, keyword and text, the
/// form in which a token displays itself.
pub open spec fn token_summary<'a>(t: Token<'a>) -> Seq<char> {
    token_type_text(t.matched_type) + ": "@ + crate::parser::keyword_of(t)
        + crate::parser::text_of(t)
}

/// The messages separated by `, `.
pub open spec fn comma_join(ls: Seq<Seq<char>>) -> Seq<char>
    decreases ls.len(),
{
    if ls.len() == 0 {
        seq![]
    } else if ls.len() == 1 {
        ls[0]
    } else {
        comma_join(ls.drop_last()) + ", "@ + ls.last()
    }
}

/// The message of one error; a composite has none of its own.
pub open spec fn message_of<'a>(k: ErrorKind<'a>) -> Seq<char> {
    match k {
        ErrorKind::AstBuilder(m) => m@,
        ErrorKind::ResourceNotFound(p) => "Resource not found: "@ + p@,
        ErrorKind::MalformedResource(d) => "Malformed resource file: "@ + d@,
        ErrorKind::NoSuchLanguage(l) => "No such language: "@ + l@,
        ErrorKind::UnexpectedEOF(_, expected, _) => "Unexpected EOF.  Expected one of: "@ + debug_list(
            expected.deep_view(),
        ),
        ErrorKind::UnexpectedToken(token, expected, _) => "Unexpected token: "@ + token_summary(token)
            + ".  Expected one of: "@ + debug_list(expected.deep_view()),
        ErrorKind::CompositeError(_) => seq![],
    }
}

impl<'a> ErrorKind<'a> {
    /// A message for people: the resource, decoder message or language
    /// named, or the token that was met and the ones that were expected; for
    /// a composite, the messages of its errors in brackets, separated by
    /// commas. A composite lists messages rather than the errors' `{:?}` form,
    /// and a token is shown by its type, keyword and text: that `{:?}` form
    /// comes from derived impls on this library's types, which the contract
    /// cannot speak of.
    pub fn descripton(&self) -> (r: String)
        ensures
            match self {
                ErrorKind::CompositeError(errors) => r@ == "["@ + comma_join(
                    Seq::new(errors@.len(), |i: int| message_of(errors@[i].kind)),
                ) + "]"@,
                _ => r@ == message_of(*self),
            },
    {
        match self {
            ErrorKind::CompositeError(errors) => {
                let ghost msgs = Seq::new(errors@.len(), |i: int| message_of(errors@[i].kind));
                let mut s = String::new();
                append_text(&mut s, "[");
                let mut i: usize = 0;
                while i < errors.len()
                    invariant
                        i <= errors@.len(),
                        msgs == Seq::new(errors@.len(), |i: int| message_of(errors@[i].kind)),
                        s@ == "["@ + comma_join(msgs.subrange(0, i as int)),
                    decreases errors.len() - i,
                {
                    let ghost pre = msgs.subrange(0, i as int);
                    let ghost next = msgs.subrange(0, i + 1);
                    assert(next.drop_last() == pre);
                    assert(next.last() == msgs[i as int]);
                    if i > 0 {
                        append_text(&mut s, ", ");
                    }
                    let inner = errors[i].kind.simple_description();
                    append_text(&mut s, inner.as_str());
                    proof {
                        if i == 0 {
                            assert(comma_join(pre) == Seq::<char>::empty());
                            assert(s@ == "["@ + comma_join(next));
                        } else {
                            assert(s@ == "["@ + comma_join(pre) + ", "@ + msgs[i as int]);
                        }
                    }
                    i += 1;
                }
                assert(msgs.subrange(0, errors@.len() as int) == msgs);
                append_text(&mut s, "]");
                s
            },
            _ => self.simple_description(),
        }
    }

    /// The message of an error; a composite has none of its own.
    fn simple_description(&self) -> (r: String)
        ensures
            r@ == message_of(*self),
    {
        let mut s = String::new();
        match self {
            ErrorKind::AstBuilder(message) => {
                append_text(&mut s, message.as_str());
            },
            ErrorKind::ResourceNotFound(resource) => {
                append_text(&mut s, "Resource not found: ");
                append_text(&mut s, resource.as_str());
            },
            ErrorKind::MalformedResource(detail) => {
                append_text(&mut s, "Malformed resource file: ");
                append_text(&mut s, detail.as_str());
            },
            ErrorKind::NoSuchLanguage(language) => {
                append_text(&mut s, "No such language: ");
                append_text(&mut s, language.as_str());
            },
            ErrorKind::UnexpectedToken(token, expected, _) => {
                append_text(&mut s, "Unexpected token: ");
                append_text(&mut s, token_type_name(token.matched_type));
                append_text(&mut s, ": ");
                if let Some(keyword) = &token.matched_keyword {
                    append_text(&mut s, keyword.as_str());
                }
                if let Some(text) = &token.matched_text {
                    append_text(&mut s, text.as_str());
                }
                append_text(&mut s, ".  Expected one of: ");
                let list = debug_names(expected);
                append_text(&mut s, list.as_str());
            },
            ErrorKind::UnexpectedEOF(_, expected, _) => {
                append_text(&mut s, "Unexpected EOF.  Expected one of: ");
                let list = debug_names(expected);
                append_text(&mut s, list.as_str());
            },
            ErrorKind::CompositeError(_) => {},
        }
        s
    }
}

} // verus!
