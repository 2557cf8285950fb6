//! The grammar: what each line is, and how the lines make a feature.
use vstd::prelude::*;
use vstd::string::StringExecFns;
use crate::ast::{
    Argument, Background, Comment, DataTable, DocString, Examples, Feature, Location, Scenario,
    ScenarioDefinition, ScenarioOutline, Step, TableCell, TableRow, Tag,
};
use crate::text::{join_lines, join_lines_exec};
use crate::gherkin_dialect::GherkinDialectProvider;
use crate::token::Token;
use crate::token_matcher::{language_directive, TokenMatcher};
use crate::token_scanner::TokenScanner;
use crate::{ErrorKind, ParserError};

verus! {

/// What a line was classified as.
#[derive(Debug, Clone, Copy, PartialEq, Eq, Structural)]
pub enum TokenType {
    Initial,
    EOF,
    Empty,
    Comment,
    TagLine,
    FeatureLine,
    BackgroundLine,
    ScenarioLine,
    ScenarioOutlineLine,
    ExamplesLine,
    StepLine,
    DocStringSeparator,
    TableRow,
    Language,
    Other,
}

/// The block that steps, doc strings and data tables belong to.
#[derive(Debug, Clone, Copy, PartialEq, Eq, Structural)]
pub enum Block {
    Background,
    Scenario,
    Outline,
}

/// What tags that were just read may stand before.
#[derive(Debug, Clone, Copy, PartialEq, Eq, Structural)]
pub enum TagsFor {
    /// a scenario or a scenario outline
    Scenario,
    /// an examples block, as the outline has none yet
    Examples,
    /// an examples block or the next scenario
    Either,
}

/// Where the parser stands in the grammar
/// `Tag* Feature Description Background? (Scenario | Outline)*`, with
/// `Outline := Tag* OutlineLine Description Step* Examples+`,
/// `Examples := Tag* ExamplesLine Description TableRow TableRow*` and
/// `Step := StepLine (DocString | TableRow+)?`. A table remembers how many
/// cells its first row has.
#[derive(Debug, Clone, Copy, PartialEq, Eq, Structural)]
pub enum ParserState {
    Start,
    FeatureDescription,
    BackgroundDescription,
    ScenarioDescription,
    OutlineDescription,
    Steps(Block),
    DocString(Block),
    /// after a step's doc string
    AfterArgument(Block),
    DataTable(Block, usize),
    Tags(TagsFor),
    ExamplesDescription,
    ExamplesRows(usize),
    End,
}

/// The outcome of reading one token.
#[derive(Debug, Clone, Copy, PartialEq, Eq, Structural)]
pub enum Transition {
    To(ParserState),
    /// the token is not allowed here
    Unexpected,
    /// a table row whose cell count differs from its table's first row
    Ragged,
}

/// Lines that may stand anywhere: blank lines, comments, and language
/// directives after the first.
pub open spec fn is_skipped(t: TokenType) -> bool {
    t == TokenType::Empty || t == TokenType::Comment || t == TokenType::Language
}

/// What may follow the steps of a block, or its description.
pub open spec fn after_block(b: Block, t: TokenType) -> Transition {
    match t {
        TokenType::StepLine => Transition::To(ParserState::Steps(b)),
        TokenType::TagLine => if b == Block::Outline {
            Transition::To(ParserState::Tags(TagsFor::Examples))
        } else {
            Transition::To(ParserState::Tags(TagsFor::Scenario))
        },
        TokenType::ExamplesLine => if b == Block::Outline {
            Transition::To(ParserState::ExamplesDescription)
        } else {
            Transition::Unexpected
        },
        TokenType::ScenarioLine => if b == Block::Outline {
            Transition::Unexpected
        } else {
            Transition::To(ParserState::ScenarioDescription)
        },
        TokenType::ScenarioOutlineLine => if b == Block::Outline {
            Transition::Unexpected
        } else {
            Transition::To(ParserState::OutlineDescription)
        },
        TokenType::EOF => if b == Block::Outline {
            Transition::Unexpected
        } else {
            Transition::To(ParserState::End)
        },
        _ => Transition::Unexpected,
    }
}

/// The grammar: what reading a token of type `t` with `cells` table cells
/// does in state `s`. Doc string lines are never skipped.
pub open spec fn next_state(s: ParserState, t: TokenType, cells: usize) -> Transition {
    match s {
        ParserState::DocString(b) => match t {
            TokenType::Other => Transition::To(s),
            TokenType::DocStringSeparator => Transition::To(ParserState::AfterArgument(b)),
            _ => Transition::Unexpected,
        },
        _ => if is_skipped(t) {
            Transition::To(s)
        } else {
            match s {
                ParserState::Start => match t {
                    TokenType::TagLine => Transition::To(s),
                    TokenType::FeatureLine => Transition::To(ParserState::FeatureDescription),
                    _ => Transition::Unexpected,
                },
                ParserState::FeatureDescription => match t {
                    TokenType::Other => Transition::To(s),
                    TokenType::BackgroundLine => Transition::To(
                        ParserState::BackgroundDescription,
                    ),
                    TokenType::StepLine => Transition::Unexpected,
                    _ => after_block(Block::Scenario, t),
                },
                ParserState::BackgroundDescription => match t {
                    TokenType::Other => Transition::To(s),
                    _ => after_block(Block::Background, t),
                },
                ParserState::ScenarioDescription => match t {
                    TokenType::Other => Transition::To(s),
                    _ => after_block(Block::Scenario, t),
                },
                ParserState::OutlineDescription => match t {
                    TokenType::Other => Transition::To(s),
                    _ => after_block(Block::Outline, t),
                },
                ParserState::Steps(b) => match t {
                    TokenType::DocStringSeparator => Transition::To(ParserState::DocString(b)),
                    TokenType::TableRow => Transition::To(ParserState::DataTable(b, cells)),
                    _ => after_block(b, t),
                },
                ParserState::DataTable(b, w) => match t {
                    TokenType::TableRow => if cells == w {
                        Transition::To(s)
                    } else {
                        Transition::Ragged
                    },
                    _ => after_block(b, t),
                },
                ParserState::AfterArgument(b) => after_block(b, t),
                ParserState::Tags(f) => match t {
                    TokenType::TagLine => Transition::To(s),
                    TokenType::ExamplesLine => if f == TagsFor::Scenario {
                        Transition::Unexpected
                    } else {
                        Transition::To(ParserState::ExamplesDescription)
                    },
                    TokenType::ScenarioLine => if f == TagsFor::Examples {
                        Transition::Unexpected
                    } else {
                        Transition::To(ParserState::ScenarioDescription)
                    },
                    TokenType::ScenarioOutlineLine => if f == TagsFor::Examples {
                        Transition::Unexpected
                    } else {
                        Transition::To(ParserState::OutlineDescription)
                    },
                    _ => Transition::Unexpected,
                },
                ParserState::ExamplesDescription => match t {
                    TokenType::Other => Transition::To(s),
                    TokenType::TableRow => Transition::To(ParserState::ExamplesRows(cells)),
                    _ => Transition::Unexpected,
                },
                ParserState::ExamplesRows(w) => match t {
                    TokenType::TableRow => if cells == w {
                        Transition::To(s)
                    } else {
                        Transition::Ragged
                    },
                    TokenType::TagLine => Transition::To(ParserState::Tags(TagsFor::Either)),
                    TokenType::ExamplesLine => Transition::To(ParserState::ExamplesDescription),
                    TokenType::ScenarioLine => Transition::To(ParserState::ScenarioDescription),
                    TokenType::ScenarioOutlineLine => Transition::To(
                        ParserState::OutlineDescription,
                    ),
                    TokenType::EOF => Transition::To(ParserState::End),
                    _ => Transition::Unexpected,
                },
                _ => Transition::Unexpected,
            }
        },
    }
}

fn skipped(t: TokenType) -> (r: bool)
    ensures
        r == is_skipped(t),
{
    match t {
        TokenType::Empty | TokenType::Comment | TokenType::Language => true,
        _ => false,
    }
}

fn after_block_exec(b: Block, t: TokenType) -> (r: Transition)
    ensures
        r == after_block(b, t),
{
    let outline = match b {
        Block::Outline => true,
        _ => false,
    };
    match t {
        TokenType::StepLine => Transition::To(ParserState::Steps(b)),
        TokenType::TagLine => if outline {
            Transition::To(ParserState::Tags(TagsFor::Examples))
        } else {
            Transition::To(ParserState::Tags(TagsFor::Scenario))
        },
        TokenType::ExamplesLine => if outline {
            Transition::To(ParserState::ExamplesDescription)
        } else {
            Transition::Unexpected
        },
        TokenType::ScenarioLine => if outline {
            Transition::Unexpected
        } else {
            Transition::To(ParserState::ScenarioDescription)
        },
        TokenType::ScenarioOutlineLine => if outline {
            Transition::Unexpected
        } else {
            Transition::To(ParserState::OutlineDescription)
        },
        TokenType::EOF => if outline {
            Transition::Unexpected
        } else {
            Transition::To(ParserState::End)
        },
        _ => Transition::Unexpected,
    }
}

/// One step of the grammar, as `next_state` states it.
pub fn transition(s: ParserState, t: TokenType, cells: usize) -> (r: Transition)
    ensures
        r == next_state(s, t, cells),
{
    if let ParserState::DocString(b) = s {
        return match t {
            TokenType::Other => Transition::To(s),
            TokenType::DocStringSeparator => Transition::To(ParserState::AfterArgument(b)),
            _ => Transition::Unexpected,
        };
    }
    if skipped(t) {
        return Transition::To(s);
    }
    match s {
        ParserState::Start => match t {
            TokenType::TagLine => Transition::To(s),
            TokenType::FeatureLine => Transition::To(ParserState::FeatureDescription),
            _ => Transition::Unexpected,
        },
        ParserState::FeatureDescription => match t {
            TokenType::Other => Transition::To(s),
            TokenType::BackgroundLine => Transition::To(ParserState::BackgroundDescription),
            TokenType::StepLine => Transition::Unexpected,
            _ => after_block_exec(Block::Scenario, t),
        },
        ParserState::BackgroundDescription => match t {
            TokenType::Other => Transition::To(s),
            _ => after_block_exec(Block::Background, t),
        },
        ParserState::ScenarioDescription => match t {
            TokenType::Other => Transition::To(s),
            _ => after_block_exec(Block::Scenario, t),
        },
        ParserState::OutlineDescription => match t {
            TokenType::Other => Transition::To(s),
            _ => after_block_exec(Block::Outline, t),
        },
        ParserState::Steps(b) => match t {
            TokenType::DocStringSeparator => Transition::To(ParserState::DocString(b)),
            TokenType::TableRow => Transition::To(ParserState::DataTable(b, cells)),
            _ => after_block_exec(b, t),
        },
        ParserState::DataTable(b, w) => match t {
            TokenType::TableRow => if cells == w {
                Transition::To(s)
            } else {
                Transition::Ragged
            },
            _ => after_block_exec(b, t),
        },
        ParserState::AfterArgument(b) => after_block_exec(b, t),
        ParserState::Tags(f) => {
            let scenario_only = match f {
                TagsFor::Scenario => true,
                _ => false,
            };
            let examples_only = match f {
                TagsFor::Examples => true,
                _ => false,
            };
            match t {
                TokenType::TagLine => Transition::To(s),
                TokenType::ExamplesLine => if scenario_only {
                    Transition::Unexpected
                } else {
                    Transition::To(ParserState::ExamplesDescription)
                },
                TokenType::ScenarioLine => if examples_only {
                    Transition::Unexpected
                } else {
                    Transition::To(ParserState::ScenarioDescription)
                },
                TokenType::ScenarioOutlineLine => if examples_only {
                    Transition::Unexpected
                } else {
                    Transition::To(ParserState::OutlineDescription)
                },
                _ => Transition::Unexpected,
            }
        },
        ParserState::ExamplesDescription => match t {
            TokenType::Other => Transition::To(s),
            TokenType::TableRow => Transition::To(ParserState::ExamplesRows(cells)),
            _ => Transition::Unexpected,
        },
        ParserState::ExamplesRows(w) => match t {
            TokenType::TableRow => if cells == w {
                Transition::To(s)
            } else {
                Transition::Ragged
            },
            TokenType::TagLine => Transition::To(ParserState::Tags(TagsFor::Either)),
            TokenType::ExamplesLine => Transition::To(ParserState::ExamplesDescription),
            TokenType::ScenarioLine => Transition::To(ParserState::ScenarioDescription),
            TokenType::ScenarioOutlineLine => Transition::To(ParserState::OutlineDescription),
            TokenType::EOF => Transition::To(ParserState::End),
            _ => Transition::Unexpected,
        },
        _ => Transition::Unexpected,
    }
}

/// The number of table cells a token holds.
pub open spec fn cells_of<'a>(t: Token<'a>) -> usize {
    match t.matched_items {
        Some(v) => v@.len() as usize,
        None => 0,
    }
}

/// The state after reading all of `ts`; a token that is not allowed leaves
/// the state as it was.
pub open spec fn run_state<'a>(ts: Seq<Token<'a>>) -> ParserState
    decreases ts.len(),
{
    if ts.len() == 0 {
        ParserState::Start
    } else {
        let s = run_state(ts.drop_last());
        match next_state(s, ts.last().matched_type, cells_of(ts.last())) {
            Transition::To(n) => n,
            _ => s,
        }
    }
}

/// The tokens of `ts` that the grammar does not allow, in order: each with
/// its index, the outcome, and the state it was read in.
pub open spec fn faults<'a>(ts: Seq<Token<'a>>) -> Seq<(usize, Transition, ParserState)>
    decreases ts.len(),
{
    if ts.len() == 0 {
        seq![]
    } else {
        let f = faults(ts.drop_last());
        let s = run_state(ts.drop_last());
        match next_state(s, ts.last().matched_type, cells_of(ts.last())) {
            Transition::To(_) => f,
            tr => f.push(((ts.len() - 1) as usize, tr, s)),
        }
    }
}

/// A prefix of a document without faults has none either.
pub proof fn lemma_faults_prefix<'a>(ts: Seq<Token<'a>>, j: int)
    requires
        0 <= j <= ts.len(),
        faults(ts).len() == 0,
    ensures
        faults(ts.subrange(0, j)).len() == 0,
    decreases ts.len() - j,
{
    if j < ts.len() {
        assert(faults(ts.drop_last()).len() == 0);
        lemma_faults_prefix(ts.drop_last(), j);
        assert(ts.drop_last().subrange(0, j) == ts.subrange(0, j));
    } else {
        assert(ts.subrange(0, j) == ts);
    }
}

/// The error that reports fault `tr`, met in state `s`, at token `tok`:
/// for a token not allowed there, the names of those that were, and where
/// the parser stood.
pub open spec fn reports<'a>(e: ParserError<'a>, tok: Token<'a>, tr: Transition, s: ParserState) -> bool {
    &&& e.location == tok.location
    &&& match tr {
        Transition::Ragged => e.kind matches ErrorKind::AstBuilder(m) && m@
            == "inconsistent cell count within the table"@,
        _ => if tok.matched_type == TokenType::EOF {
            e.kind matches ErrorKind::UnexpectedEOF(t, x, d) && t == tok && x.deep_view()
                == expected_of(s) && d@ == state_text(s)
        } else {
            e.kind matches ErrorKind::UnexpectedToken(t, x, d) && t == tok && x.deep_view()
                == expected_of(s) && d@ == state_text(s)
        },
    }
}

fn cell_count<'a>(t: &Token<'a>) -> (r: usize)
    ensures
        r == cells_of(*t),
{
    match &t.matched_items {
        Some(v) => v.len(),
        None => 0,
    }
}

/// The faults of `tokens`, as `faults` states them.
pub fn find_faults<'a>(tokens: &Vec<Token<'a>>) -> (r: Vec<(usize, Transition, ParserState)>)
    ensures
        r@ == faults(tokens@),
{
    let mut found: Vec<(usize, Transition, ParserState)> = Vec::new();
    let mut state = ParserState::Start;
    let mut i: usize = 0;
    while i < tokens.len()
        invariant
            i <= tokens@.len(),
            state == run_state(tokens@.subrange(0, i as int)),
            found@ == faults(tokens@.subrange(0, i as int)),
        decreases tokens.len() - i,
    {
        let t = &tokens[i];
        assert(tokens@.subrange(0, i + 1).drop_last() == tokens@.subrange(0, i as int));
        assert(tokens@.subrange(0, i + 1).last() == *t);
        let tr = transition(state, t.matched_type, cell_count(t));
        match tr {
            Transition::To(n) => {
                state = n;
            },
            _ => {
                found.push((i, tr, state));
            },
        }
        i += 1;
    }
    assert(tokens@.subrange(0, tokens@.len() as int) == tokens@);
    found
}

/// Faults come in the order of their tokens, each within the document.
pub proof fn lemma_fault_order<'a>(ts: Seq<Token<'a>>)
    requires
        ts.len() <= usize::MAX,
    ensures
        forall|k: int| 0 <= k < faults(ts).len() ==> (#[trigger] faults(ts)[k]).0 < ts.len(),
        forall|k: int, m: int|
            0 <= k < m < faults(ts).len() ==> (#[trigger] faults(ts)[k]).0 < (
            #[trigger] faults(ts)[m]).0,
    decreases ts.len(),
{
    if ts.len() > 0 {
        let p = ts.drop_last();
        lemma_fault_order(p);
        let f = faults(p);
        let s = run_state(p);
        match next_state(s, ts.last().matched_type, cells_of(ts.last())) {
            Transition::To(_) => {
                assert(faults(ts) == f);
            },
            tr => {
                let g = f.push(((ts.len() - 1) as usize, tr, s));
                assert(faults(ts) == g);
                assert forall|k: int, m: int| 0 <= k < m < g.len() implies (#[trigger] g[k]).0 < (
                    #[trigger] g[m]).0 by {
                    assert(g[k] == f[k]);
                    if m == g.len() - 1 {
                        assert(f[k].0 < p.len());
                    } else {
                        assert(g[m] == f[m]);
                        assert(f[k].0 < f[m].0);
                    }
                }
            },
        }
    }
}

/// Names of the token types that may come next in state `s`.
/// The names of the token types that may come next in state `s`.
pub open spec fn expected_of(s: ParserState) -> Seq<Seq<char>> {
    match s {
        ParserState::Start => seq!["#TagLine"@, "#FeatureLine"@],
        ParserState::FeatureDescription => seq![
            "#BackgroundLine"@,
            "#TagLine"@,
            "#ScenarioLine"@,
            "#ScenarioOutlineLine"@,
            "#Other"@,
            "#EOF"@,
        ],
        ParserState::DocString(_) => seq!["#DocStringSeparator"@, "#Other"@],
        ParserState::Tags(TagsFor::Scenario) => seq![
            "#TagLine"@,
            "#ScenarioLine"@,
            "#ScenarioOutlineLine"@,
        ],
        ParserState::Tags(TagsFor::Examples) => seq!["#TagLine"@, "#ExamplesLine"@],
        ParserState::Tags(TagsFor::Either) => seq![
            "#TagLine"@,
            "#ExamplesLine"@,
            "#ScenarioLine"@,
            "#ScenarioOutlineLine"@,
        ],
        ParserState::ExamplesDescription => seq!["#TableRow"@, "#Other"@],
        ParserState::ExamplesRows(_) => seq![
            "#TableRow"@,
            "#TagLine"@,
            "#ExamplesLine"@,
            "#ScenarioLine"@,
            "#ScenarioOutlineLine"@,
            "#EOF"@,
        ],
        ParserState::OutlineDescription | ParserState::Steps(Block::Outline)
        | ParserState::DataTable(Block::Outline, _) => seq![
            "#StepLine"@,
            "#DocStringSeparator"@,
            "#TableRow"@,
            "#TagLine"@,
            "#ExamplesLine"@,
        ],
        ParserState::AfterArgument(Block::Outline) => seq!["#StepLine"@, "#TagLine"@, "#ExamplesLine"@],
        ParserState::AfterArgument(_) => seq![
            "#StepLine"@,
            "#TagLine"@,
            "#ScenarioLine"@,
            "#ScenarioOutlineLine"@,
            "#EOF"@,
        ],
        ParserState::End => Seq::<Seq<char>>::empty(),
        _ => seq![
            "#StepLine"@,
            "#DocStringSeparator"@,
            "#TableRow"@,
            "#TagLine"@,
            "#ScenarioLine"@,
            "#ScenarioOutlineLine"@,
            "#EOF"@,
        ],
    }
}

fn expected_names(s: ParserState) -> (r: Vec<String>)
    ensures
        r.deep_view() == expected_of(s),
{
    let names: Vec<&str> = match s {
        ParserState::Start => vec!["#TagLine", "#FeatureLine"],
        ParserState::FeatureDescription => vec![
            "#BackgroundLine",
            "#TagLine",
            "#ScenarioLine",
            "#ScenarioOutlineLine",
            "#Other",
            "#EOF",
        ],
        ParserState::DocString(_) => vec!["#DocStringSeparator", "#Other"],
        ParserState::Tags(TagsFor::Scenario) => vec![
            "#TagLine",
            "#ScenarioLine",
            "#ScenarioOutlineLine",
        ],
        ParserState::Tags(TagsFor::Examples) => vec!["#TagLine", "#ExamplesLine"],
        ParserState::Tags(TagsFor::Either) => vec![
            "#TagLine",
            "#ExamplesLine",
            "#ScenarioLine",
            "#ScenarioOutlineLine",
        ],
        ParserState::ExamplesDescription => vec!["#TableRow", "#Other"],
        ParserState::ExamplesRows(_) => vec![
            "#TableRow",
            "#TagLine",
            "#ExamplesLine",
            "#ScenarioLine",
            "#ScenarioOutlineLine",
            "#EOF",
        ],
        ParserState::OutlineDescription | ParserState::Steps(Block::Outline)
        | ParserState::DataTable(Block::Outline, _) => vec![
            "#StepLine",
            "#DocStringSeparator",
            "#TableRow",
            "#TagLine",
            "#ExamplesLine",
        ],
        ParserState::AfterArgument(Block::Outline) => vec!["#StepLine", "#TagLine", "#ExamplesLine"],
        ParserState::AfterArgument(_) => vec![
            "#StepLine",
            "#TagLine",
            "#ScenarioLine",
            "#ScenarioOutlineLine",
            "#EOF",
        ],
        ParserState::End => vec![],
        _ => vec![
            "#StepLine",
            "#DocStringSeparator",
            "#TableRow",
            "#TagLine",
            "#ScenarioLine",
            "#ScenarioOutlineLine",
            "#EOF",
        ],
    };
    let ghost want = Seq::new(names@.len(), |k: int| names@[k]@);
    assert(want =~= expected_of(s));
    let mut r: Vec<String> = Vec::new();
    let mut i: usize = 0;
    while i < names.len()
        invariant
            i <= names@.len(),
            want == Seq::new(names@.len(), |k: int| names@[k]@),
            r.deep_view() == want.subrange(0, i as int),
        decreases names.len() - i,
    {
        let ghost before = r.deep_view();
        r.push(String::from_str(names[i]));
        assert(r.deep_view() == before.push(want[i as int]));
        assert(want.subrange(0, i + 1) == want.subrange(0, i as int).push(want[i as int]));
        i += 1;
    }
    assert(want.subrange(0, names@.len() as int) == want);
    r
}

/// A few words on where the parser stood.
pub open spec fn state_text(s: ParserState) -> Seq<char> {
    match s {
        ParserState::Start => "before the feature line"@,
        ParserState::FeatureDescription => "in the feature description"@,
        ParserState::BackgroundDescription => "in the background description"@,
        ParserState::ScenarioDescription => "in the scenario description"@,
        ParserState::OutlineDescription => "in the scenario outline description"@,
        ParserState::Steps(_) => "after a step"@,
        ParserState::DocString(_) => "in a doc string"@,
        ParserState::DataTable(_, _) => "in a data table"@,
        ParserState::AfterArgument(_) => "after a doc string"@,
        ParserState::Tags(_) => "after tags"@,
        ParserState::ExamplesDescription => "in the examples description"@,
        ParserState::ExamplesRows(_) => "in an examples table"@,
        ParserState::End => "after the end of the input"@,
    }
}

fn state_name(s: ParserState) -> (r: String)
    ensures
        r@ == state_text(s),
{
    let name = match s {
        ParserState::Start => "before the feature line",
        ParserState::FeatureDescription => "in the feature description",
        ParserState::BackgroundDescription => "in the background description",
        ParserState::ScenarioDescription => "in the scenario description",
        ParserState::OutlineDescription => "in the scenario outline description",
        ParserState::Steps(_) => "after a step",
        ParserState::DocString(_) => "in a doc string",
        ParserState::DataTable(_, _) => "in a data table",
        ParserState::AfterArgument(_) => "after a doc string",
        ParserState::Tags(_) => "after tags",
        ParserState::ExamplesDescription => "in the examples description",
        ParserState::ExamplesRows(_) => "in an examples table",
        ParserState::End => "after the end of the input",
    };
    String::from_str(name)
}

/// The error that reports fault `tr`, met in state `s`, at `token`.
fn fault_error<'a>(token: Token<'a>, tr: Transition, s: ParserState) -> (r: ParserError<'a>)
    ensures
        reports(r, token, tr, s),
{
    let location = token.location;
    match tr {
        Transition::Ragged => ParserError::new(
            ErrorKind::AstBuilder("inconsistent cell count within the table".to_string()),
            location,
        ),
        _ => {
            let expected = expected_names(s);
            let description = state_name(s);
            if token.matched_type == TokenType::EOF {
                ParserError::new(ErrorKind::UnexpectedEOF(token, expected, description), location)
            } else {
                ParserError::new(
                    ErrorKind::UnexpectedToken(token, expected, description),
                    location,
                )
            }
        },
    }
}

/// One error for each fault, in order.
fn fault_errors<'a>(tokens: Vec<Token<'a>>, found: &Vec<(usize, Transition, ParserState)>) -> (r:
    Vec<ParserError<'a>>)
    requires
        forall|k: int| 0 <= k < found@.len() ==> (#[trigger] found@[k]).0 < tokens@.len(),
        forall|k: int, m: int|
            0 <= k < m < found@.len() ==> (#[trigger] found@[k]).0 < (#[trigger] found@[m]).0,
    ensures
        r@.len() == found@.len(),
        forall|k: int|
            0 <= k < r@.len() ==> reports(
                #[trigger] r@[k],
                tokens@[found@[k].0 as int],
                found@[k].1,
                found@[k].2,
            ),
{
    let ghost all = tokens@;
    let mut toks = tokens;
    let mut k = found.len();
    let mut back: Vec<ParserError<'a>> = Vec::new();
    while toks.len() > 0
        invariant
            toks@.len() <= all.len(),
            toks@ == all.subrange(0, toks@.len() as int),
            k <= found@.len(),
            back@.len() == found@.len() - k,
            forall|j: int| 0 <= j < found@.len() ==> (#[trigger] found@[j]).0 < all.len(),
            forall|j: int, m: int|
                0 <= j < m < found@.len() ==> (#[trigger] found@[j]).0 < (#[trigger] found@[m]).0,
            forall|j: int| 0 <= j < k ==> (#[trigger] found@[j]).0 < toks@.len(),
            forall|j: int| k <= j < found@.len() ==> (#[trigger] found@[j]).0 >= toks@.len(),
            forall|m: int|
                0 <= m < back@.len() ==> reports(
                    #[trigger] back@[m],
                    all[found@[found@.len() - 1 - m].0 as int],
                    found@[found@.len() - 1 - m].1,
                    found@[found@.len() - 1 - m].2,
                ),
        decreases toks.len(),
    {
        let t = toks.pop().unwrap();
        let idx = toks.len();
        assert(t == all[idx as int]);
        assert(toks@ =~= all.subrange(0, toks@.len() as int));
        if k > 0 && found[k - 1].0 == idx {
            let e = fault_error(t, found[k - 1].1, found[k - 1].2);
            back.push(e);
            k -= 1;
        }
    }
    proof {
        if k > 0 {
            assert(found@[0].0 < toks@.len());
        }
    }
    let mut r: Vec<ParserError<'a>> = Vec::new();
    while back.len() > 0
        invariant
            k == 0,
            r@.len() + back@.len() == found@.len(),
            forall|m: int|
                0 <= m < back@.len() ==> reports(
                    #[trigger] back@[m],
                    all[found@[found@.len() - 1 - m].0 as int],
                    found@[found@.len() - 1 - m].1,
                    found@[found@.len() - 1 - m].2,
                ),
            forall|m: int|
                0 <= m < r@.len() ==> reports(
                    #[trigger] r@[m],
                    all[found@[m].0 as int],
                    found@[m].1,
                    found@[m].2,
                ),
        decreases back.len(),
    {
        let e = back.pop().unwrap();
        r.push(e);
    }
    r
}

/// The text a token matched, or nothing.
pub open spec fn text_of<'a>(t: Token<'a>) -> Seq<char> {
    match t.matched_text {
        Some(s) => s@,
        None => seq![],
    }
}

/// The keyword a token matched, or nothing.
pub open spec fn keyword_of<'a>(t: Token<'a>) -> Seq<char> {
    match t.matched_keyword {
        Some(s) => s@,
        None => seq![],
    }
}

/// Token `k` is the first feature line of `ts`.
pub open spec fn is_first_feature_line<'a>(ts: Seq<Token<'a>>, k: int) -> bool {
    &&& 0 <= k < ts.len()
    &&& ts[k].matched_type == TokenType::FeatureLine
    &&& forall|j: int| 0 <= j < k ==> (#[trigger] ts[j]).matched_type != TokenType::FeatureLine
}

/// The description lines from token `j` on: the texts of the `Other` lines,
/// passing over blank lines, comments and directives, up to the first line
/// of any other kind.
pub open spec fn description_from<'a>(ts: Seq<Token<'a>>, j: int) -> Seq<Seq<char>>
    decreases ts.len() - j,
{
    if j < 0 || j >= ts.len() {
        seq![]
    } else if ts[j].matched_type == TokenType::Other {
        seq![text_of(ts[j])] + description_from(ts, j + 1)
    } else if is_skipped(ts[j].matched_type) {
        description_from(ts, j + 1)
    } else {
        seq![]
    }
}

/// A tag as (line, column, name).
pub open spec fn tag_of(t: Tag) -> (usize, usize, Seq<char>) {
    (t.location.line, t.location.column, t.name@)
}

pub open spec fn tag_views(v: Seq<Tag>) -> Seq<(usize, usize, Seq<char>)> {
    Seq::new(v.len(), |m: int| tag_of(v[m]))
}

/// The tags that tag line `t` holds, on its line.
pub open spec fn line_tags<'a>(t: Token<'a>) -> Seq<(usize, usize, Seq<char>)> {
    match t.matched_items {
        Some(v) => Seq::new(v@.len(), |m: int| (t.location.line, v@[m].column, v@[m].text@)),
        None => seq![],
    }
}

/// The tags of all tag lines of `ts`, in order.
pub open spec fn tags_upto<'a>(ts: Seq<Token<'a>>) -> Seq<(usize, usize, Seq<char>)>
    decreases ts.len(),
{
    if ts.len() == 0 {
        seq![]
    } else if ts.last().matched_type == TokenType::TagLine {
        tags_upto(ts.drop_last()) + line_tags(ts.last())
    } else {
        tags_upto(ts.drop_last())
    }
}

/// The tags of the run of tag lines that ends at index `j`, passing over
/// blank lines, comments and directives: the tags that the next scenario
/// line takes.
pub open spec fn tags_run<'a>(ts: Seq<Token<'a>>, j: int) -> Seq<(usize, usize, Seq<char>)>
    decreases j + 1,
{
    if j < 0 || j >= ts.len() {
        seq![]
    } else if ts[j].matched_type == TokenType::TagLine {
        tags_run(ts, j - 1) + line_tags(ts[j])
    } else if is_skipped(ts[j].matched_type) {
        tags_run(ts, j - 1)
    } else {
        seq![]
    }
}

pub open spec fn child_description(c: ScenarioDefinition) -> Seq<char> {
    match c {
        ScenarioDefinition::Background(b) => b.description@,
        ScenarioDefinition::Scenario(x) => x.description@,
        ScenarioDefinition::ScenarioOutline(o) => o.description@,
    }
}

pub open spec fn child_tags(c: ScenarioDefinition) -> Seq<Tag> {
    match c {
        ScenarioDefinition::Background(_) => seq![],
        ScenarioDefinition::Scenario(x) => x.tags@,
        ScenarioDefinition::ScenarioOutline(o) => o.tags@,
    }
}

/// The whole text of a token's line, or nothing at the end of input.
pub open spec fn line_text_of<'a>(t: Token<'a>) -> Seq<char> {
    match t.line {
        Some(l) => l.text(),
        None => seq![],
    }
}

/// A comment as (line, column, text).
pub open spec fn comment_views(v: Seq<Comment>) -> Seq<(usize, usize, Seq<char>)> {
    Seq::new(v.len(), |m: int| (v[m].location.line, v[m].location.column, v[m].text@))
}

/// The comment that token `t` makes: a comment line, or a language
/// directive once the feature line is behind.
pub open spec fn comment_of<'a>(t: Token<'a>, after_feature: bool) -> Option<
    (usize, usize, Seq<char>),
> {
    if t.matched_type == TokenType::Comment {
        Some((t.location.line, 1usize, text_of(t)))
    } else if t.matched_type == TokenType::Language && after_feature {
        Some((t.location.line, 1usize, line_text_of(t)))
    } else {
        None
    }
}

/// The comments of the first `n` tokens, where the feature line is at `k`.
pub open spec fn comments_upto<'a>(ts: Seq<Token<'a>>, k: int, n: int) -> Seq<
    (usize, usize, Seq<char>),
>
    decreases n,
{
    if n <= 0 || n > ts.len() {
        seq![]
    } else {
        let p = comments_upto(ts, k, n - 1);
        match comment_of(ts[n - 1], n - 1 > k) {
            Some(c) => p.push(c),
            None => p,
        }
    }
}

/// Before the feature line, where it stands makes no difference.
pub proof fn lemma_comments_before<'a>(ts: Seq<Token<'a>>, k1: int, k2: int, n: int)
    requires
        n <= k1 + 1,
        n <= k2 + 1,
    ensures
        comments_upto(ts, k1, n) == comments_upto(ts, k2, n),
    decreases n,
{
    if n > 0 && n <= ts.len() {
        lemma_comments_before(ts, k1, k2, n - 1);
    }
}

/// The feature holds the keyword, name and location of feature line `k`,
/// the language it was read in, the tags of the lines before it, the
/// description lines that follow it, and the comments of the document.
pub open spec fn feature_header<'a>(f: Feature, ts: Seq<Token<'a>>, k: int) -> bool {
    &&& is_first_feature_line(ts, k)
    &&& f.keyword@ == keyword_of(ts[k])
    &&& f.name@ == text_of(ts[k])
    &&& f.location == ts[k].location
    &&& f.description@ == join_lines(description_from(ts, k + 1))
    &&& f.language@ == ts[k].matched_gherkin_dialect.language()
    &&& tag_views(f.tags@) == tags_upto(ts.subrange(0, k))
    &&& comment_views(f.comments@) == comments_upto(ts, k, ts.len() as int)
}

/// Background, scenario and scenario outline lines open a child of the feature.
pub open spec fn opens_block(t: TokenType) -> bool {
    t == TokenType::BackgroundLine || t == TokenType::ScenarioLine || t
        == TokenType::ScenarioOutlineLine
}

/// The indices of the lines of `ts` that open a child, in order.
pub open spec fn block_lines<'a>(ts: Seq<Token<'a>>) -> Seq<int>
    decreases ts.len(),
{
    if ts.len() == 0 {
        seq![]
    } else if opens_block(ts.last().matched_type) {
        block_lines(ts.drop_last()).push(ts.len() - 1)
    } else {
        block_lines(ts.drop_last())
    }
}

/// The indices of the step lines of `ts` from index `from` on, in order.
pub open spec fn step_lines<'a>(ts: Seq<Token<'a>>, from: int) -> Seq<int>
    decreases ts.len(),
{
    if ts.len() == 0 {
        seq![]
    } else if ts.last().matched_type == TokenType::StepLine && ts.len() - 1 >= from {
        step_lines(ts.drop_last(), from).push(ts.len() - 1)
    } else {
        step_lines(ts.drop_last(), from)
    }
}

/// The step lines found lie from `from` on and within `ts`.
pub proof fn lemma_step_lines_bounds<'a>(ts: Seq<Token<'a>>, from: int)
    ensures
        forall|m: int|
            0 <= m < step_lines(ts, from).len() ==> from <= #[trigger] step_lines(ts, from)[m]
                < ts.len(),
    decreases ts.len(),
{
    if ts.len() > 0 {
        let p = ts.drop_last();
        lemma_step_lines_bounds(p, from);
        if ts.last().matched_type == TokenType::StepLine && ts.len() - 1 >= from {
            let q = step_lines(p, from).push(ts.len() - 1);
            assert(step_lines(ts, from) == q);
            assert forall|m: int| 0 <= m < q.len() implies from <= #[trigger] q[m] < ts.len() by {
                if m < q.len() - 1 {
                    assert(q[m] == step_lines(p, from)[m]);
                }
            }
        } else {
            assert(step_lines(ts, from) == step_lines(p, from));
        }
    }
}

/// The indices of the examples lines of `ts` from index `from` on, in order.
pub open spec fn examples_lines<'a>(ts: Seq<Token<'a>>, from: int) -> Seq<int>
    decreases ts.len(),
{
    if ts.len() == 0 {
        seq![]
    } else if ts.last().matched_type == TokenType::ExamplesLine && ts.len() - 1 >= from {
        examples_lines(ts.drop_last(), from).push(ts.len() - 1)
    } else {
        examples_lines(ts.drop_last(), from)
    }
}

/// The examples lines found lie from `from` on and within `ts`.
pub proof fn lemma_examples_lines_bounds<'a>(ts: Seq<Token<'a>>, from: int)
    ensures
        forall|m: int|
            0 <= m < examples_lines(ts, from).len() ==> from <= #[trigger] examples_lines(
                ts,
                from,
            )[m] < ts.len(),
    decreases ts.len(),
{
    if ts.len() > 0 {
        let p = ts.drop_last();
        lemma_examples_lines_bounds(p, from);
        if ts.last().matched_type == TokenType::ExamplesLine && ts.len() - 1 >= from {
            let q = examples_lines(p, from).push(ts.len() - 1);
            assert(examples_lines(ts, from) == q);
            assert forall|m: int| 0 <= m < q.len() implies from <= #[trigger] q[m] < ts.len() by {
                if m < q.len() - 1 {
                    assert(q[m] == examples_lines(p, from)[m]);
                }
            }
        } else {
            assert(examples_lines(ts, from) == examples_lines(p, from));
        }
    }
}

/// Examples block `e` has the keyword, name and location of examples line `t`.
pub open spec fn examples_block_of<'a>(e: Examples, t: Token<'a>) -> bool {
    &&& e.keyword@ == keyword_of(t)
    &&& e.name@ == text_of(t)
    &&& e.location == t.location
}

/// The examples blocks `ex` are those of the examples lines of `ts` from
/// `from` on.
pub open spec fn examples_of<'a>(ex: Seq<Examples>, ts: Seq<Token<'a>>, from: int) -> bool {
    &&& ex.len() == examples_lines(ts, from).len()
    &&& forall|m: int|
        0 <= m < ex.len() ==> examples_block_of(#[trigger] ex[m], ts[examples_lines(ts, from)[m]])
}

/// The first index from `j` on of a line that is not passed over (blank
/// lines, comments and directives are), or the length of `ts`.
pub open spec fn next_line<'a>(ts: Seq<Token<'a>>, j: int) -> int
    decreases ts.len() - j,
{
    if j < 0 || j >= ts.len() {
        ts.len() as int
    } else if is_skipped(ts[j].matched_type) {
        next_line(ts, j + 1)
    } else {
        j
    }
}

/// The texts of the `Other` lines from `j` on, up to the first line of
/// another kind: the lines of a doc string.
pub open spec fn doc_lines<'a>(ts: Seq<Token<'a>>, j: int) -> Seq<Seq<char>>
    decreases ts.len() - j,
{
    if j < 0 || j >= ts.len() || ts[j].matched_type != TokenType::Other {
        seq![]
    } else {
        seq![text_of(ts[j])] + doc_lines(ts, j + 1)
    }
}

/// The indices of the table rows from `j` on, passing over blank lines,
/// comments and directives, up to the first line of another kind.
pub open spec fn table_rows<'a>(ts: Seq<Token<'a>>, j: int) -> Seq<int>
    decreases ts.len() - j,
{
    if j < 0 || j >= ts.len() {
        seq![]
    } else if ts[j].matched_type == TokenType::TableRow {
        seq![j] + table_rows(ts, j + 1)
    } else if is_skipped(ts[j].matched_type) {
        table_rows(ts, j + 1)
    } else {
        seq![]
    }
}

/// A row as its location and its cells as (line, column, value).
pub open spec fn row_view(r: TableRow) -> (Location, Seq<(usize, usize, Seq<char>)>) {
    (
        r.location,
        Seq::new(
            r.cells@.len(),
            |m: int| (r.cells@[m].location.line, r.cells@[m].location.column, r.cells@[m].value@),
        ),
    )
}

/// The row that table row line `t` makes.
pub open spec fn line_row<'a>(t: Token<'a>) -> (Location, Seq<(usize, usize, Seq<char>)>) {
    (
        t.location,
        match t.matched_items {
            Some(v) => Seq::new(v@.len(), |m: int| (t.location.line, v@[m].column, v@[m].text@)),
            None => seq![],
        },
    )
}

/// The rows are those of the table row lines at `idx`.
pub open spec fn rows_match<'a>(rows: Seq<TableRow>, ts: Seq<Token<'a>>, idx: Seq<int>) -> bool {
    &&& rows.len() == idx.len()
    &&& forall|m: int| 0 <= m < rows.len() ==> row_view(#[trigger] rows[m]) == line_row(ts[idx[m]])
}

/// The argument is the doc string opened at line `a`.
pub open spec fn doc_argument<'a>(arg: Option<Argument>, ts: Seq<Token<'a>>, a: int) -> bool {
    match arg {
        Some(Argument::DocString(d)) => d.location == ts[a].location && d.content_type@
            == text_of(ts[a]) && d.content@ == join_lines(doc_lines(ts, a + 1)),
        _ => false,
    }
}

/// The argument of the step at line `s`: the doc string or the table that
/// its first following line opens, or none.
pub open spec fn argument_of<'a>(arg: Option<Argument>, ts: Seq<Token<'a>>, s: int) -> bool {
    let a = next_line(ts, s + 1);
    if a < ts.len() && ts[a].matched_type == TokenType::DocStringSeparator {
        doc_argument(arg, ts, a)
    } else if a < ts.len() && ts[a].matched_type == TokenType::TableRow {
        arg matches Some(Argument::DataTable(t)) && rows_match(t.rows@, ts, table_rows(ts, a))
    } else {
        arg is None
    }
}

/// Step `s` has the keyword, text and location of step line `t`.
pub open spec fn step_of<'a>(s: Step, t: Token<'a>) -> bool {
    &&& s.keyword@ == keyword_of(t)
    &&& s.text@ == text_of(t)
    &&& s.location == t.location
}

pub open spec fn child_steps(c: ScenarioDefinition) -> Seq<Step> {
    match c {
        ScenarioDefinition::Background(b) => b.steps@,
        ScenarioDefinition::Scenario(x) => x.steps@,
        ScenarioDefinition::ScenarioOutline(o) => o.steps@,
    }
}

/// The steps `st` are those of the step lines of `ts` from `from` on, each
/// with the argument that follows it in `all`, of which `ts` is a prefix.
pub open spec fn steps_of<'a>(st: Seq<Step>, ts: Seq<Token<'a>>, from: int, all: Seq<Token<'a>>) -> bool {
    &&& st.len() == step_lines(ts, from).len()
    &&& forall|m: int| 0 <= m < st.len() ==> step_of(#[trigger] st[m], ts[step_lines(ts, from)[m]])
    &&& forall|m: int|
        0 <= m < st.len() ==> argument_of((#[trigger] st[m]).argument, all, step_lines(ts, from)[m])
}

/// Where the block opened at line `block_lines(ts)[j]` ends: at the next
/// such line, or at the end of `ts`.
pub open spec fn block_end<'a>(ts: Seq<Token<'a>>, j: int) -> int {
    if j + 1 < block_lines(ts).len() {
        block_lines(ts)[j + 1]
    } else {
        ts.len() as int
    }
}

/// Child `c` is of the kind that line `t` opens, with its keyword, name and
/// location.
pub open spec fn child_of<'a>(c: ScenarioDefinition, t: Token<'a>) -> bool {
    match c {
        ScenarioDefinition::Background(b) => t.matched_type == TokenType::BackgroundLine
            && b.keyword@ == keyword_of(t) && b.name@ == text_of(t) && b.location == t.location,
        ScenarioDefinition::Scenario(x) => t.matched_type == TokenType::ScenarioLine
            && x.keyword@ == keyword_of(t) && x.name@ == text_of(t) && x.location == t.location,
        ScenarioDefinition::ScenarioOutline(o) => t.matched_type == TokenType::ScenarioOutlineLine
            && o.keyword@ == keyword_of(t) && o.name@ == text_of(t) && o.location == t.location,
    }
}

/// One child for each line that opens one, in order, each with the tags of
/// the tag lines right before it, the description lines right after it, and
/// one step for each step line of its block, with the doc string or table
/// that follows the step; an outline also has one examples block for each
/// examples line.
pub open spec fn children_of<'a>(f: Feature, ts: Seq<Token<'a>>) -> bool {
    &&& f.children@.len() == block_lines(ts).len()
    &&& forall|j: int|
        0 <= j < f.children@.len() ==> child_of(#[trigger] f.children@[j], ts[block_lines(ts)[j]])
    &&& forall|j: int|
        0 <= j < f.children@.len() ==> child_description(#[trigger] f.children@[j]) == join_lines(
            description_from(ts, block_lines(ts)[j] + 1),
        )
    &&& forall|j: int|
        0 <= j < f.children@.len() ==> tag_views(child_tags(#[trigger] f.children@[j])) == tags_run(
            ts,
            block_lines(ts)[j] - 1,
        )
    &&& forall|j: int|
        0 <= j < f.children@.len() ==> steps_of(
            child_steps(#[trigger] f.children@[j]),
            ts.subrange(0, block_end(ts, j)),
            block_lines(ts)[j] + 1,
            ts,
        )
    &&& forall|j: int|
        0 <= j < f.children@.len() ==> (#[trigger] f.children@[j] matches ScenarioDefinition::ScenarioOutline(o)
            ==> examples_of(o.examples@, ts.subrange(0, block_end(ts, j)), block_lines(ts)[j] + 1))
}

fn token_text<'a>(t: &Token<'a>) -> (r: String)
    ensures
        r@ == text_of(*t),
{
    match &t.matched_text {
        Some(s) => s.clone(),
        None => String::new(),
    }
}

fn line_text<'a>(t: &Token<'a>) -> (r: String)
    ensures
        r@ == line_text_of(*t),
{
    match &t.line {
        Some(line) => {
            let text = line.get_line_text(0);
            assert(line.text().subrange(0, line.text().len() as int) == line.text());
            text
        },
        None => String::new(),
    }
}

fn token_keyword<'a>(t: &Token<'a>) -> (r: String)
    ensures
        r@ == keyword_of(*t),
{
    match &t.matched_keyword {
        Some(s) => s.clone(),
        None => String::new(),
    }
}

/// The tags of a tag line.
fn tags_of<'a>(t: &Token<'a>) -> (r: Vec<Tag>)
    ensures
        tag_views(r@) == line_tags(*t),
{
    let mut tags: Vec<Tag> = Vec::new();
    if let Some(items) = &t.matched_items {
        let mut i: usize = 0;
        while i < items.len()
            invariant
                i <= items@.len(),
                t.matched_items == Some(*items),
                tags@.len() == i,
                forall|m: int| 0 <= m < i ==> tag_of(#[trigger] tags@[m]) == (t.location.line, items@[m].column, items@[m].text@),
            decreases items.len() - i,
        {
            let location = Location::new(t.location.line, items[i].column);
            tags.push(Tag::new(location, items[i].text.clone()));
            i += 1;
        }
        assert(tag_views(tags@) =~= line_tags(*t));
    } else {
        assert(tag_views(tags@) =~= line_tags(*t));
    }
    tags
}

/// The row that a table row line makes.
fn row_of<'a>(t: &Token<'a>) -> (r: TableRow)
    ensures
        row_view(r) == line_row(*t),
{
    let mut cells: Vec<TableCell> = Vec::new();
    if let Some(items) = &t.matched_items {
        let mut i: usize = 0;
        while i < items.len()
            invariant
                i <= items@.len(),
                cells@.len() == i,
                forall|m: int|
                    0 <= m < i ==> ((#[trigger] cells@[m]).location.line, cells@[m].location.column,
                    cells@[m].value@) == (t.location.line, items@[m].column, items@[m].text@),
            decreases items.len() - i,
        {
            let location = Location::new(t.location.line, items[i].column);
            cells.push(TableCell::new(location, items[i].text.clone()));
            i += 1;
        }
        let r = TableRow::new(t.location, cells);
        assert(row_view(r).1 =~= line_row(*t).1);
        r
    } else {
        let r = TableRow::new(t.location, cells);
        assert(row_view(r).1 =~= line_row(*t).1);
        r
    }
}

/// A step being read, with the rows of its table so far.
struct StepDraft {
    location: Location,
    keyword: String,
    text: String,
    argument: Option<Argument>,
    rows: Vec<TableRow>,
}

/// An examples block being read.
struct ExamplesDraft {
    location: Location,
    keyword: String,
    name: String,
    tags: Vec<Tag>,
    description: Vec<String>,
    header: Option<TableRow>,
    body: Vec<TableRow>,
}

/// A background, scenario or outline being read.
struct BlockDraft {
    kind: Block,
    location: Location,
    keyword: String,
    name: String,
    tags: Vec<Tag>,
    description: Vec<String>,
    steps: Vec<Step>,
    examples: Vec<Examples>,
}

/// The draft is of the kind that line `t` opens, with its keyword, name and
/// location.
spec fn draft_of<'a>(b: BlockDraft, t: Token<'a>) -> bool {
    &&& b.kind == (if t.matched_type == TokenType::BackgroundLine {
        Block::Background
    } else if t.matched_type == TokenType::ScenarioLine {
        Block::Scenario
    } else {
        Block::Outline
    })
    &&& opens_block(t.matched_type)
    &&& b.keyword@ == keyword_of(t)
    &&& b.name@ == text_of(t)
    &&& b.location == t.location
}

/// The draft holds the tags of the run before line `idx`, where a
/// background has none.
spec fn draft_tags<'a>(b: BlockDraft, ts: Seq<Token<'a>>, idx: int) -> bool {
    &&& tag_views(b.tags@) == tags_run(ts, idx - 1)
    &&& b.kind == Block::Background ==> tags_run(ts, idx - 1).len() == 0
}

/// The examples draft has the keyword, name and location of line `t`.
spec fn examples_draft_of<'a>(d: ExamplesDraft, t: Token<'a>) -> bool {
    &&& d.keyword@ == keyword_of(t)
    &&& d.name@ == text_of(t)
    &&& d.location == t.location
}

/// The examples block made of draft `d` keeps its keyword, name and location.
spec fn examples_of_draft(e: Examples, d: ExamplesDraft) -> bool {
    e.keyword == d.keyword && e.name == d.name && e.location == d.location
}

/// The step draft has the keyword, text and location of step line `t`.
spec fn step_draft_of<'a>(d: StepDraft, t: Token<'a>) -> bool {
    &&& d.keyword@ == keyword_of(t)
    &&& d.text@ == text_of(t)
    &&& d.location == t.location
}

/// The step made of draft `d` keeps its keyword, text and location, and
/// takes the table of its rows, if it has any, or else its argument.
spec fn step_of_draft(s: Step, d: StepDraft) -> bool {
    &&& s.keyword == d.keyword
    &&& s.text == d.text
    &&& s.location == d.location
    &&& s.argument == if d.rows@.len() > 0 {
        Some(Argument::DataTable(DataTable { rows: d.rows }))
    } else {
        d.argument
    }
}

/// The draft, once complete, makes the argument that follows line `s`.
spec fn draft_argument<'a>(d: StepDraft, ts: Seq<Token<'a>>, s: int) -> bool {
    let a = next_line(ts, s + 1);
    if a < ts.len() && ts[a].matched_type == TokenType::DocStringSeparator {
        d.rows@.len() == 0 && doc_argument(d.argument, ts, a)
    } else if a < ts.len() && ts[a].matched_type == TokenType::TableRow {
        d.argument is None && d.rows@.len() > 0 && rows_match(d.rows@, ts, table_rows(ts, a))
    } else {
        d.argument is None && d.rows@.len() == 0
    }
}

/// The child made of draft `b` keeps its kind, keyword, name and location.
spec fn child_of_draft(c: ScenarioDefinition, b: BlockDraft) -> bool {
    match c {
        ScenarioDefinition::Background(x) => b.kind == Block::Background && x.keyword == b.keyword
            && x.name == b.name && x.location == b.location,
        ScenarioDefinition::Scenario(x) => b.kind == Block::Scenario && x.keyword == b.keyword
            && x.name == b.name && x.location == b.location && x.tags == b.tags,
        ScenarioDefinition::ScenarioOutline(x) => b.kind == Block::Outline && x.keyword == b.keyword
            && x.name == b.name && x.location == b.location && x.tags == b.tags,
    }
}

/// A doc string being read.
struct DocDraft {
    location: Location,
    content_type: String,
    lines: Vec<String>,
}

fn finish_step(step: Option<StepDraft>, steps: &mut Vec<Step>)
    ensures
        match step {
            Some(d) => final(steps)@ == old(steps)@.push(final(steps)@.last()) && step_of_draft(
                final(steps)@.last(),
                d,
            ),
            None => final(steps)@ == old(steps)@,

        },
{
    if let Some(d) = step {
        let argument = if d.rows.len() > 0 {
            Some(Argument::DataTable(DataTable::new(d.rows)))
        } else {
            d.argument
        };
        steps.push(Step::new(d.location, d.keyword, d.text, argument));
    }
}

fn finish_examples(ex: Option<ExamplesDraft>, examples: &mut Vec<Examples>)
    ensures
        match ex {
            Some(d) => final(examples)@ == old(examples)@.push(final(examples)@.last())
                && examples_of_draft(final(examples)@.last(), d),
            None => final(examples)@ == old(examples)@,
        },
{
    if let Some(d) = ex {
        let header = match d.header {
            Some(h) => h,
            None => TableRow::new(d.location, Vec::new()),
        };
        let description = join_lines_exec(&d.description);
        examples.push(
            Examples::new(d.location, d.tags, d.keyword, d.name, description, header, d.body),
        );
    }
}

fn finish_block(block: Option<BlockDraft>, children: &mut Vec<ScenarioDefinition>)
    ensures
        match block {
            Some(b) => final(children)@ == old(children)@.push(final(children)@.last())
                && child_of_draft(final(children)@.last(), b) && child_steps(
                final(children)@.last(),
            ) == b.steps@ && (final(children)@.last() matches ScenarioDefinition::ScenarioOutline(o)
                ==> o.examples@ == b.examples@) && child_description(final(children)@.last())
                == join_lines(b.description.deep_view()),
            None => final(children)@ == old(children)@,
        },
{
    if let Some(b) = block {
        let description = join_lines_exec(&b.description);
        let child = match b.kind {
            Block::Background => ScenarioDefinition::Background(
                Background::new(b.location, b.keyword, b.name, description, b.steps),
            ),
            Block::Scenario => ScenarioDefinition::Scenario(
                Scenario::new(b.tags, b.location, b.keyword, b.name, description, b.steps),
            ),
            Block::Outline => ScenarioDefinition::ScenarioOutline(
                ScenarioOutline::new(
                    b.tags,
                    b.location,
                    b.keyword,
                    b.name,
                    description,
                    b.steps,
                    b.examples,
                ),
            ),
        };
        children.push(child);
    }
}

/// Closes the step being read, and the examples and block around it.
fn finish_all(
    step: Option<StepDraft>,
    ex: Option<ExamplesDraft>,
    block: Option<BlockDraft>,
    children: &mut Vec<ScenarioDefinition>,
)
    ensures
        match block {
            Some(b) => {
                let c = final(children)@.last();
                &&& final(children)@ == old(children)@.push(c)
                &&& child_of_draft(c, b)
                &&& child_description(c) == join_lines(b.description.deep_view())
                &&& match step {
                    Some(d) => child_steps(c) == b.steps@.push(child_steps(c).last())
                        && step_of_draft(child_steps(c).last(), d),
                    None => child_steps(c) == b.steps@,
                }
                &&& c matches ScenarioDefinition::ScenarioOutline(o) ==> match ex {
                    Some(d) => o.examples@ == b.examples@.push(o.examples@.last())
                        && examples_of_draft(o.examples@.last(), d),
                    None => o.examples@ == b.examples@,
                }
            },
            None => final(children)@ == old(children)@,
        },
{
    let mut block = block;
    match &mut block {
        Some(b) => {
            finish_step(step, &mut b.steps);
            finish_examples(ex, &mut b.examples);
        },
        None => {},
    }
    finish_block(block, children);
}

/// Builds the feature of a document that the grammar accepts as a whole.
#[verifier::rlimit(100)]
fn build_feature<'a>(tokens: &Vec<Token<'a>>) -> (f: Feature)
    requires
        faults(tokens@).len() == 0,
        tokens@.len() > 0,
        tokens@.last().matched_type == TokenType::EOF,
        forall|j: int| 0 <= j < tokens@.len() - 1 ==> (#[trigger] tokens@[j]).matched_type != TokenType::EOF,
    ensures
        exists|k: int| feature_header(f, tokens@, k),
        children_of(f, tokens@),
{
    let ghost ts = tokens@;
    let mut state = ParserState::Start;
    let mut feature_seen = false;
    let ghost mut k: int = 0;
    let mut f_location = Location::new(0, 0);
    let mut f_keyword = String::new();
    let mut f_name = String::new();
    let mut f_language = String::new();
    let mut f_description: Vec<String> = Vec::new();
    let mut f_tags: Vec<Tag> = Vec::new();
    let mut pending_tags: Vec<Tag> = Vec::new();
    let mut children: Vec<ScenarioDefinition> = Vec::new();
    let mut comments: Vec<Comment> = Vec::new();
    let mut block: Option<BlockDraft> = None;
    let mut step: Option<StepDraft> = None;
    let mut ex: Option<ExamplesDraft> = None;
    let mut doc: Option<DocDraft> = None;
    let ghost mut rows_idx: Seq<int> = seq![];
    let mut i: usize = 0;
    while i < tokens.len()
        invariant
            ts == tokens@,
            faults(ts).len() == 0,
            ts.len() > 0,
            ts.last().matched_type == TokenType::EOF,
            forall|j: int| 0 <= j < ts.len() - 1 ==> (#[trigger] ts[j]).matched_type != TokenType::EOF,
            i <= ts.len(),
            state == ParserState::End ==> i == ts.len(),
            state == run_state(ts.subrange(0, i as int)),
            !feature_seen ==> state == ParserState::Start && forall|j: int|
                0 <= j < i ==> (#[trigger] ts[j]).matched_type != TokenType::FeatureLine,
            state == ParserState::FeatureDescription ==> feature_seen,
            !feature_seen ==> f_description@.len() == 0,
            !feature_seen ==> comment_views(comments@) == comments_upto(ts, ts.len() as int, i as int),
            feature_seen ==> comment_views(comments@) == comments_upto(ts, k, i as int),
            !feature_seen ==> tag_views(pending_tags@) == tags_upto(ts.subrange(0, i as int)),
            feature_seen ==> tag_views(f_tags@) == tags_upto(ts.subrange(0, k)),
            feature_seen && !(state is Tags) ==> pending_tags@.len() == 0 && tags_run(ts, i - 1).len()
                == 0,
            state is Tags ==> tag_views(pending_tags@) == tags_run(ts, i - 1),
            block matches Some(b) ==> draft_tags(b, ts, block_lines(ts.subrange(0, i as int)).last()),
            forall|j: int|
                0 <= j < children@.len() ==> tag_views(child_tags(#[trigger] children@[j]))
                    == tags_run(ts, block_lines(ts.subrange(0, i as int))[j] - 1),
            feature_seen ==> state != ParserState::Start,
            children@.len() + (if block is Some {
                1int
            } else {
                0int
            }) == block_lines(ts.subrange(0, i as int)).len(),
            forall|j: int|
                0 <= j < children@.len() ==> child_of(
                    #[trigger] children@[j],
                    ts[block_lines(ts.subrange(0, i as int))[j]],
                ),
            i > 0 && ts[i - 1].matched_type == TokenType::EOF ==> block is None,
            block is None ==> step is None,
            block is None ==> ex is None,
            state is BackgroundDescription || state is ScenarioDescription
                || state is OutlineDescription ==> step is None,
            state is DocString || state is Steps || state is DataTable || state is AfterArgument
                ==> step is Some,
            block matches Some(b) ==> forall|m: int|
                0 <= m < b.steps@.len() ==> argument_of(
                    (#[trigger] b.steps@[m]).argument,
                    ts,
                    step_lines(
                        ts.subrange(0, i as int),
                        block_lines(ts.subrange(0, i as int)).last() + 1,
                    )[m],
                ),
            step matches Some(d) ==> {
                let sl = step_lines(
                    ts.subrange(0, i as int),
                    block_lines(ts.subrange(0, i as int)).last() + 1,
                );
                let st = sl.last();
                let a = next_line(ts, st + 1);
                if state is Steps {
                    &&& d.argument is None
                    &&& d.rows@.len() == 0
                    &&& next_line(ts, st + 1) == next_line(ts, i as int)
                } else if state is DocString {
                    &&& doc is Some
                    &&& d.argument is None
                    &&& d.rows@.len() == 0
                    &&& a < i
                    &&& ts[a].matched_type == TokenType::DocStringSeparator
                    &&& doc->0.location == ts[a].location
                    &&& doc->0.content_type@ == text_of(ts[a])
                    &&& doc_lines(ts, a + 1) == doc->0.lines.deep_view() + doc_lines(ts, i as int)
                } else if state is DataTable {
                    &&& d.argument is None
                    &&& d.rows@.len() > 0
                    &&& a < i
                    &&& ts[a].matched_type == TokenType::TableRow
                    &&& table_rows(ts, a) == rows_idx + table_rows(ts, i as int)
                    &&& rows_match(d.rows@, ts, rows_idx)
                } else {
                    draft_argument(d, ts, st)
                }
            },
            block matches Some(b) ==> {
                let idx = block_lines(ts.subrange(0, i as int)).last();
                if state == ParserState::BackgroundDescription || state
                    == ParserState::ScenarioDescription || state == ParserState::OutlineDescription {
                    description_from(ts, idx + 1) == b.description.deep_view() + description_from(
                        ts,
                        i as int,
                    )
                } else {
                    description_from(ts, idx + 1) == b.description.deep_view()
                }
            },
            forall|j: int|
                0 <= j < children@.len() ==> child_description(#[trigger] children@[j]) == join_lines(
                    description_from(ts, block_lines(ts.subrange(0, i as int))[j] + 1),
                ),
            block matches Some(b) ==> {
                let el = examples_lines(
                    ts.subrange(0, i as int),
                    block_lines(ts.subrange(0, i as int)).last() + 1,
                );
                &&& b.examples@.len() + (if ex is Some {
                    1int
                } else {
                    0int
                }) == el.len()
                &&& forall|m: int|
                    0 <= m < b.examples@.len() ==> examples_block_of(#[trigger] b.examples@[m], ts[el[m]])
                &&& ex matches Some(d) ==> examples_draft_of(d, ts[el.last()])
            },
            forall|j: int|
                0 <= j < children@.len() ==> (#[trigger] children@[j] matches ScenarioDefinition::ScenarioOutline(o)
                    ==> examples_of(
                    o.examples@,
                    ts.subrange(0, block_end(ts.subrange(0, i as int), j)),
                    block_lines(ts.subrange(0, i as int))[j] + 1,
                )),
            block is None && children@.len() > 0 ==> state == ParserState::End,
            block is None ==> (state == ParserState::Start || state
                == ParserState::FeatureDescription || state == ParserState::Tags(TagsFor::Scenario)
                || state == ParserState::End),
            block matches Some(b) ==> {
                let sl = step_lines(
                    ts.subrange(0, i as int),
                    block_lines(ts.subrange(0, i as int)).last() + 1,
                );
                &&& b.steps@.len() + (if step is Some {
                    1int
                } else {
                    0int
                }) == sl.len()
                &&& forall|m: int| 0 <= m < b.steps@.len() ==> step_of(#[trigger] b.steps@[m], ts[sl[m]])
                &&& step matches Some(d) ==> step_draft_of(d, ts[sl.last()])
            },
            forall|j: int|
                0 <= j < children@.len() ==> steps_of(
                    child_steps(#[trigger] children@[j]),
                    ts.subrange(0, block_end(ts.subrange(0, i as int), j)),
                    block_lines(ts.subrange(0, i as int))[j] + 1,
                    ts,
                ),
            block matches Some(b) ==> draft_of(
                b,
                ts[block_lines(ts.subrange(0, i as int)).last()],
            ),
            forall|j: int|
                0 <= j < block_lines(ts.subrange(0, i as int)).len() ==> 0 <= #[trigger] block_lines(
                    ts.subrange(0, i as int),
                )[j] < i,
            feature_seen ==> {
                &&& 0 <= k < i
                &&& is_first_feature_line(ts, k)
                &&& f_keyword@ == keyword_of(ts[k])
                &&& f_name@ == text_of(ts[k])
                &&& f_location == ts[k].location
                &&& f_language@ == ts[k].matched_gherkin_dialect.language()
                &&& (state == ParserState::FeatureDescription ==> description_from(ts, k + 1)
                    == f_description.deep_view() + description_from(ts, i as int))
                &&& (state != ParserState::FeatureDescription ==> description_from(ts, k + 1)
                    == f_description.deep_view())
            },
        decreases tokens.len() - i,
    {
        let t = &tokens[i];
        let ty = t.matched_type;
        proof {
            lemma_faults_prefix(ts, i + 1);
            let pre = ts.subrange(0, i as int);
            assert(ts.subrange(0, i + 1).drop_last() == pre);
            assert(ts.subrange(0, i + 1).last() == ts[i as int]);
        }
        let tr = transition(state, ty, cell_count(t));
        proof {
            let pre = ts.subrange(0, i as int);
            let whole = ts.subrange(0, i + 1);
            assert(faults(whole).len() == 0);
            assert(whole.drop_last() == pre);
            assert(whole.last() == ts[i as int]);
            assert(faults(pre).len() == 0);
            assert(tr matches Transition::To(_));
        }
        let next = match tr {
            Transition::To(n) => n,
            _ => state,
        };
        let ghost pre = ts.subrange(0, i as int);
        let ghost post = ts.subrange(0, i + 1);
        proof {
            assert(post.drop_last() == pre);
            assert(post.last() == ts[i as int]);
            assert(block_lines(post) == if opens_block(ty) {
                block_lines(pre).push(i as int)
            } else {
                block_lines(pre)
            });
            assert forall|from: int|
                #[trigger] examples_lines(post, from) == (if ty == TokenType::ExamplesLine && i >= from {
                    examples_lines(pre, from).push(i as int)
                } else {
                    examples_lines(pre, from)
                }) by {}
            assert(next_line(ts, i as int) == if is_skipped(ty) {
                next_line(ts, i + 1)
            } else {
                i as int
            });
            assert(doc_lines(ts, i as int) == if ty == TokenType::Other {
                seq![text_of(ts[i as int])] + doc_lines(ts, i + 1)
            } else {
                Seq::<Seq<char>>::empty()
            });
            assert(table_rows(ts, i as int) == if ty == TokenType::TableRow {
                seq![i as int] + table_rows(ts, i + 1)
            } else if is_skipped(ty) {
                table_rows(ts, i + 1)
            } else {
                Seq::<int>::empty()
            });
            lemma_examples_lines_bounds(pre, i + 1);
            assert(examples_lines(pre, i + 1).len() == 0) by {
                if examples_lines(pre, i + 1).len() > 0 {
                    assert(examples_lines(pre, i + 1)[0] < pre.len());
                }
            }
            assert forall|from: int|
                #[trigger] step_lines(post, from) == (if ty == TokenType::StepLine && i >= from {
                    step_lines(pre, from).push(i as int)
                } else {
                    step_lines(pre, from)
                }) by {}
            assert(tags_run(ts, i as int) == if ty == TokenType::TagLine {
                tags_run(ts, i - 1) + line_tags(ts[i as int])
            } else if is_skipped(ty) {
                tags_run(ts, i - 1)
            } else {
                Seq::<(usize, usize, Seq<char>)>::empty()
            });
            lemma_step_lines_bounds(pre, i + 1);
            assert(step_lines(pre, i + 1).len() == 0) by {
                if step_lines(pre, i + 1).len() > 0 {
                    assert(step_lines(pre, i + 1)[0] < pre.len());
                }
            }
            assert forall|j: int|
                0 <= j && j + 1 < block_lines(pre).len() implies #[trigger] block_end(post, j)
                == block_end(pre, j) by {
                assert(block_lines(post)[j + 1] == block_lines(pre)[j + 1]);
            }
        }
        let ghost old_children = children@;
        let ghost old_block = block;
        let ghost old_step = step;
        let ghost old_ex = ex;
        match state {
            ParserState::Start => {
                if ty == TokenType::TagLine {
                    let mut tags = tags_of(t);
                    let ghost before = pending_tags@;
                    let ghost added = tags@;
                    pending_tags.append(&mut tags);
                    assert(tag_views(pending_tags@) =~= tag_views(before) + tag_views(added));
                } else if ty == TokenType::Comment {
                    let ghost before = comments@;
                    comments.push(Comment::new(Location::new(t.location.line, 1), token_text(t)));
                    assert(comment_views(comments@) =~= comment_views(before).push(
                        comment_of(ts[i as int], false)->0,
                    ));
                } else if ty == TokenType::FeatureLine {
                    proof {
                        lemma_comments_before(ts, ts.len() as int, i as int, i as int);
                    }
                    feature_seen = true;
                    proof {
                        k = i as int;
                    }
                    f_location = t.location;
                    f_keyword = token_keyword(t);
                    f_name = token_text(t);
                    f_language = t.matched_gherkin_dialect.get_language();
                    f_tags = pending_tags;
                    pending_tags = Vec::new();
                    assert(f_description.deep_view() =~= Seq::<Seq<char>>::empty());
                }
            },
            _ => {
                if ty == TokenType::Comment || ty == TokenType::Language {
                    let text = if ty == TokenType::Comment {
                        token_text(t)
                    } else {
                        line_text(t)
                    };
                    let ghost before = comments@;
                    comments.push(Comment::new(Location::new(t.location.line, 1), text));
                    assert(comment_views(comments@) =~= comment_views(before).push(
                        comment_of(ts[i as int], true)->0,
                    ));
                } else if ty == TokenType::Other {
                    let text = token_text(t);
                    match state {
                        ParserState::FeatureDescription => {
                            let ghost before = f_description.deep_view();
                            f_description.push(text);
                            assert(f_description.deep_view() == before.push(text_of(ts[i as int])));
                        },
                        ParserState::ExamplesDescription => {
                            if let Some(e) = &mut ex {
                                e.description.push(text);
                            }
                        },
                        ParserState::DocString(_) => {
                            if let Some(d) = &mut doc {
                                d.lines.push(text);
                            }
                        },
                        _ => {
                            if let Some(b) = &mut block {
                                b.description.push(text);
                            }
                        },
                    }
                } else if ty == TokenType::TagLine {
                    let mut tags = tags_of(t);
                    let ghost before = pending_tags@;
                    let ghost added = tags@;
                    pending_tags.append(&mut tags);
                    assert(tag_views(pending_tags@) =~= tag_views(before) + tag_views(added));
                } else if ty == TokenType::BackgroundLine || ty == TokenType::ScenarioLine || ty
                    == TokenType::ScenarioOutlineLine {
                    finish_all(step.take(), ex.take(), block.take(), &mut children);
                    let kind = if ty == TokenType::BackgroundLine {
                        Block::Background
                    } else if ty == TokenType::ScenarioLine {
                        Block::Scenario
                    } else {
                        Block::Outline
                    };
                    proof {
                        if !(state is Tags) {
                            assert(tag_views(pending_tags@) =~= tags_run(ts, i - 1));
                        }
                    }
                    let tags = pending_tags;
                    pending_tags = Vec::new();
                    block = Some(
                        BlockDraft {
                            kind,
                            location: t.location,
                            keyword: token_keyword(t),
                            name: token_text(t),
                            tags,
                            description: Vec::new(),
                            steps: Vec::new(),
                            examples: Vec::new(),
                        },
                    );
                } else if ty == TokenType::StepLine {
                    if let Some(b) = &mut block {
                        finish_step(step.take(), &mut b.steps);
                    }
                    step = Some(
                        StepDraft {
                            location: t.location,
                            keyword: token_keyword(t),
                            text: token_text(t),
                            argument: None,
                            rows: Vec::new(),
                        },
                    );
                } else if ty == TokenType::DocStringSeparator {
                    match state {
                        ParserState::DocString(_) => {
                            if let Some(d) = doc.take() {
                                let content = join_lines_exec(&d.lines);
                                if let Some(st) = &mut step {
                                    st.argument = Some(
                                        Argument::DocString(
                                            DocString::new(d.location, d.content_type, content),
                                        ),
                                    );
                                }
                            }
                        },
                        _ => {
                            doc = Some(
                                DocDraft {
                                    location: t.location,
                                    content_type: token_text(t),
                                    lines: Vec::new(),
                                },
                            );
                        },
                    }
                } else if ty == TokenType::TableRow {
                    let row = row_of(t);
                    match state {
                        ParserState::ExamplesDescription => {
                            if let Some(e) = &mut ex {
                                e.header = Some(row);
                            }
                        },
                        ParserState::ExamplesRows(_) => {
                            if let Some(e) = &mut ex {
                                e.body.push(row);
                            }
                        },
                        _ => {
                            if let Some(st) = &mut step {
                                let ghost before = st.rows@;
                                st.rows.push(row);
                                proof {
                                    if state is DataTable {
                                        assert(table_rows(ts, i as int) == seq![i as int] + table_rows(ts, i + 1));
                                        assert(rows_idx + table_rows(ts, i as int) == rows_idx.push(i as int) + table_rows(ts, i + 1));
                                        rows_idx = rows_idx.push(i as int);
                                    } else {
                                        rows_idx = seq![i as int];
                                    }
                                    assert(st.rows@ == before.push(st.rows@.last()));
                                }
                            }
                        },
                    }
                } else if ty == TokenType::ExamplesLine {
                    if let Some(b) = &mut block {
                        finish_step(step.take(), &mut b.steps);
                        finish_examples(ex.take(), &mut b.examples);
                    }
                    let tags = pending_tags;
                    pending_tags = Vec::new();
                    ex = Some(
                        ExamplesDraft {
                            location: t.location,
                            keyword: token_keyword(t),
                            name: token_text(t),
                            tags,
                            description: Vec::new(),
                            header: None,
                            body: Vec::new(),
                        },
                    );
                } else if ty == TokenType::EOF {
                    finish_all(step.take(), ex.take(), block.take(), &mut children);
                }
            },
        }
        proof {
            if state == ParserState::FeatureDescription && next != ParserState::FeatureDescription {
                assert(description_from(ts, i as int) == Seq::<Seq<char>>::empty());
            }
            if state == ParserState::FeatureDescription && next == ParserState::FeatureDescription {
                if ty == TokenType::Other {
                    assert(description_from(ts, i as int) == seq![text_of(ts[i as int])]
                        + description_from(ts, i + 1));
                } else {
                    assert(description_from(ts, i as int) == description_from(ts, i + 1));
                }
            }
        }
        proof {
            assert forall|j: int| 0 <= j < children@.len() implies steps_of(
                child_steps(#[trigger] children@[j]),
                ts.subrange(0, block_end(post, j)),
                block_lines(post)[j] + 1,
                ts,
            ) by {
                if j < old_children.len() {
                    assert(children@[j] == old_children[j]);
                    assert(block_lines(post)[j] == block_lines(pre)[j]);
                    if old_block is Some {
                        assert(j + 1 < block_lines(pre).len());
                        assert(block_end(post, j) == block_end(pre, j));
                        assert(steps_of(
                            child_steps(old_children[j]),
                            ts.subrange(0, block_end(pre, j)),
                            block_lines(pre)[j] + 1,
                            ts,
                        ));
                    } else {
                        assert(state == ParserState::End);
                    }
                } else {
                    assert(old_block is Some);
                    let b = old_block->0;
                    let from = block_lines(pre).last() + 1;
                    let sl = step_lines(pre, from);
                    let c = children@[j];
                    assert(block_lines(post)[j] == block_lines(pre).last());
                    assert(step_lines(ts.subrange(0, block_end(post, j)), from) == sl);
                    assert(child_steps(c).len() == sl.len());
                    assert forall|m: int| 0 <= m < child_steps(c).len() implies step_of(
                        #[trigger] child_steps(c)[m],
                        ts[sl[m]],
                    ) by {
                        if m < b.steps@.len() {
                            assert(child_steps(c)[m] == b.steps@[m]);
                        }
                    }
                    let x = ts.subrange(0, block_end(post, j));
                    lemma_step_lines_bounds(x, from);
                    assert forall|m: int| 0 <= m < sl.len() implies x[sl[m]] == ts[#[trigger] sl[m]] by {
                        assert(sl[m] == step_lines(x, from)[m]);
                    }
                    assert(steps_of(child_steps(c), x, from, ts));
                }
            }
            assert forall|j: int| 0 <= j < children@.len() implies (#[trigger] children@[j] matches ScenarioDefinition::ScenarioOutline(o)
                ==> examples_of(o.examples@, ts.subrange(0, block_end(post, j)), block_lines(post)[j] + 1)) by {
                if j < old_children.len() {
                    assert(children@[j] == old_children[j]);
                    assert(block_lines(post)[j] == block_lines(pre)[j]);
                    if old_block is Some {
                        assert(j + 1 < block_lines(pre).len());
                        assert(block_end(post, j) == block_end(pre, j));
                    } else {
                        assert(state == ParserState::End);
                    }
                } else if let ScenarioDefinition::ScenarioOutline(o) = children@[j] {
                    assert(old_block is Some);
                    let b = old_block->0;
                    let from = block_lines(pre).last() + 1;
                    let el = examples_lines(pre, from);
                    assert(block_lines(post)[j] == block_lines(pre).last());
                    let x = ts.subrange(0, block_end(post, j));
                    assert(examples_lines(x, from) == el);
                    lemma_examples_lines_bounds(x, from);
                    assert(o.examples@.len() == el.len());
                    assert forall|m: int| 0 <= m < o.examples@.len() implies examples_block_of(
                        #[trigger] o.examples@[m],
                        x[examples_lines(x, from)[m]],
                    ) by {
                        assert(x[el[m]] == ts[el[m]]);
                        if m < b.examples@.len() {
                            assert(o.examples@[m] == b.examples@[m]);
                        }
                    }
                }
            }
        }
        state = next;
        i += 1;
    }
    proof {
        assert(ts.subrange(0, ts.len() as int) == ts);
        if !feature_seen {
            let p = ts.drop_last();
            assert(run_state(ts) == ParserState::Start);
            match next_state(run_state(p), ts.last().matched_type, cells_of(ts.last())) {
                Transition::To(n) => {
                    assert(n != ParserState::Start);
                },
                _ => {
                    assert(faults(ts).len() > 0);
                },
            }
        }
    }
    proof {
        assert(description_from(ts, ts.len() as int) == Seq::<Seq<char>>::empty());
        assert(f_description.deep_view() + Seq::<Seq<char>>::empty() == f_description.deep_view());
    }
    let description = join_lines_exec(&f_description);
    let f = Feature::new(
        f_tags,
        f_location,
        f_language,
        f_keyword,
        f_name,
        description,
        children,
        comments,
    );
    assert(feature_header(f, ts, k));
    assert(block is None);
    assert(children_of(f, ts));
    f
}

/// Token `t` is what the scanner hands out for the line at index `j` of
/// `lines`, numbered `j + 1`, or for the end of input past the last line.
pub open spec fn scanned<'a>(t: Token<'a>, lines: Seq<Seq<char>>, j: int) -> bool {
    &&& t.location.line == j + 1
    &&& if j < lines.len() {
        t.line matches Some(l) && l.text() == lines[j]
    } else {
        t.line is None
    }
}

/// Matcher `m` classifies the scanned token `raw` as `t` by the first rule
/// that accepts it, and becomes `next`.
pub open spec fn classifies<'a>(
    m: TokenMatcher<'a>,
    next: TokenMatcher<'a>,
    raw: Token<'a>,
    t: Token<'a>,
) -> bool {
    &&& m.rule_result(next, raw, t, m.first_rule(raw.line))
    &&& m.first_rule(raw.line) == TokenType::Language ==> m.provider().has_language(
        language_directive(raw.line->0.text())->0,
    )
}

/// Starting in state `ms[0]`, the matcher reads `lines` from index `from`
/// on into the tokens `ts`, one scanned token of `raw` at a time, passing
/// through the states `ms`.
pub open spec fn reads<'a>(
    ms: Seq<TokenMatcher<'a>>,
    raw: Seq<Token<'a>>,
    ts: Seq<Token<'a>>,
    lines: Seq<Seq<char>>,
    from: int,
) -> bool {
    &&& ms.len() == ts.len() + 1
    &&& raw.len() == ts.len()
    &&& forall|j: int|
        0 <= j < ts.len() ==> scanned(#[trigger] raw[j], lines, from + j) && classifies(
            ms[j],
            ms[j + 1],
            raw[j],
            ts[j],
        )
}

/// Matcher `m` fails on the scanned token `raw` with `e`: the line is a
/// language directive whose code the table lacks.
pub open spec fn fails_on<'a>(m: TokenMatcher<'a>, raw: Token<'a>, e: ParserError<'a>) -> bool {
    let code = language_directive(raw.line->0.text())->0;
    &&& m.first_rule(raw.line) == TokenType::Language
    &&& !m.provider().has_language(code)
    &&& (e.kind matches ErrorKind::NoSuchLanguage(c) && c@ == code)
}

/// A matcher as `TokenMatcher::new` makes it for `provider`.
pub open spec fn fresh_matcher<'a>(m: TokenMatcher<'a>, provider: &'a GherkinDialectProvider) -> bool {
    &&& m.provider() == provider
    &&& *m.dialect() == provider.dialect_for(provider.default_code())
    &&& m.separator() is None
    &&& m.strip() == 0
}

/// What parsing the tokens `ts` gives: success exactly when the grammar
/// finds no fault, and then the feature that the tokens describe; one fault
/// gives its error, more a composite of all of them, in order.
pub open spec fn parse_outcome<'a>(r: Result<Feature, ParserError<'a>>, ts: Seq<Token<'a>>) -> bool {
    &&& r is Ok <==> faults(ts).len() == 0
    &&& r matches Ok(f) ==> exists|k: int| feature_header(f, ts, k)
    &&& r matches Ok(f) ==> children_of(f, ts)
    &&& faults(ts).len() == 1 ==> (r matches Err(e) && reports(
        e,
        ts[faults(ts)[0].0 as int],
        faults(ts)[0].1,
        faults(ts)[0].2,
    ))
    &&& faults(ts).len() >= 2 ==> (r matches Err(e) && e.location == ts[faults(ts)[0].0 as int].location
        && (e.kind matches ErrorKind::CompositeError(v) && v@.len() == faults(ts).len() && forall|
        k: int,
    |
        0 <= k < v@.len() ==> reports(#[trigger] v@[k], ts[faults(ts)[k].0 as int], faults(ts)[k].1, faults(ts)[k].2)))
}

/// Reads the scanner's lines to the end through the matcher: one token per
/// line and the end-of-input token last. Fails as the matcher does, on a
/// language directive that names an unknown language.
pub fn read_tokens<'a>(scanner: &mut TokenScanner<'a>, matcher: &mut TokenMatcher<'a>) -> (r: Result<
    Vec<Token<'a>>,
    ParserError<'a>,
>)
    requires
        old(scanner).position() <= old(scanner).lines().len(),
    ensures
        final(scanner).lines() == old(scanner).lines(),
        match r {
            Ok(ts) => exists|ms: Seq<TokenMatcher<'a>>, raw: Seq<Token<'a>>|
                #[trigger] reads(ms, raw, ts@, old(scanner).lines(), old(scanner).position() as int)
                    && ms[0] == *old(matcher),
            Err(e) => exists|ms: Seq<TokenMatcher<'a>>, raw: Seq<Token<'a>>, ts: Seq<Token<'a>>, f: Token<'a>|
                #![trigger reads(ms, raw, ts, old(scanner).lines(), old(scanner).position() as int), fails_on(ms.last(), f, e)]
                reads(ms, raw, ts, old(scanner).lines(), old(scanner).position() as int)
                    && ms[0] == *old(matcher) && scanned(
                    f,
                    old(scanner).lines(),
                    (old(scanner).position() + ts.len()) as int,
                ) && fails_on(ms.last(), f, e),
        },
        r matches Ok(ts) ==> {
            &&& ts@.len() == old(scanner).lines().len() - old(scanner).position() + 1
            &&& ts@.last().matched_type == TokenType::EOF
            &&& ts@.last().line is None
            &&& forall|j: int| 0 <= j < ts@.len() - 1 ==> (#[trigger] ts@[j]).matched_type != TokenType::EOF
            &&& forall|j: int|
                0 <= j < ts@.len() - 1 ==> ((#[trigger] ts@[j]).line matches Some(l) && l.text()
                    == old(scanner).lines()[old(scanner).position() + j])
        },
{
    let ghost lines = scanner.lines();
    let ghost start = scanner.position();
    let mut tokens: Vec<Token<'a>> = Vec::new();
    let mut done = false;
    let ghost mut ms: Seq<TokenMatcher<'a>> = seq![*matcher];
    let ghost mut raw: Seq<Token<'a>> = seq![];
    while !done
        invariant
            reads(ms, raw, tokens@, lines, start as int),
            ms[0] == *old(matcher),
            ms.last() == *matcher,
            scanner.lines() == lines,
            lines == old(scanner).lines(),
            start == old(scanner).position(),
            start <= scanner.position() <= lines.len(),
            !done ==> tokens@.len() == scanner.position() - start,
            forall|j: int|
                0 <= j < tokens@.len() && (j < tokens@.len() - 1 || !done) ==> (
                #[trigger] tokens@[j]).matched_type != TokenType::EOF,
            done ==> tokens@.len() == lines.len() - start + 1 && scanner.position() == lines.len()
                && tokens@.last().matched_type == TokenType::EOF && tokens@.last().line is None,
            forall|j: int|
                0 <= j < tokens@.len() && (start + j < scanner.position() || !done) ==> ((
                #[trigger] tokens@[j]).line matches Some(l) && l.text() == lines[start + j]),
        decreases lines.len() - scanner.position() + (if done {
            0int
        } else {
            1int
        }),
    {
        let ghost before = scanner.position();
        let mut token = scanner.read();
        let ghost raw_t = token;
        proof {
            assert(scanned(raw_t, lines, (start + tokens@.len()) as int));
        }
        match matcher.match_token(&mut token) {
            Ok(()) => {},
            Err(e) => {
                proof {
                    assert(reads(ms, raw, tokens@, lines, start as int) && ms[0] == *old(matcher)
                        && scanned(raw_t, lines, (start + tokens@.len()) as int) && fails_on(ms.last(), raw_t, e));
                }
                return Err(e);
            },
        }
        done = token.matched_type == TokenType::EOF;
        let ghost old_tokens = tokens@;
        tokens.push(token);
        proof {
            if before < lines.len() {
                assert(!done);
            }
            let ms2 = ms.push(*matcher);
            let raw2 = raw.push(raw_t);
            assert forall|j: int| 0 <= j < tokens@.len() implies scanned(#[trigger] raw2[j], lines, start + j)
                && classifies(ms2[j], ms2[j + 1], raw2[j], tokens@[j]) by {
                if j < old_tokens.len() {
                    assert(raw2[j] == raw[j] && ms2[j] == ms[j] && ms2[j + 1] == ms[j + 1]
                        && tokens@[j] == old_tokens[j]);
                }
            }
            ms = ms2;
            raw = raw2;
        }
    }
    Ok(tokens)
}

/// Parses a whole token list, which ends with the end of input. It
/// succeeds exactly when the grammar finds no fault, and then the feature
/// carries the keyword, name and location of the first feature line and the
/// description lines after it, and one child for each background, scenario
/// and outline line, in order. One fault gives its error; more give a
/// composite of all of them, in order.
pub fn parse_tokens<'a>(tokens: Vec<Token<'a>>) -> (r: Result<Feature, ParserError<'a>>)
    requires
        tokens@.len() > 0,
        tokens@.last().matched_type == TokenType::EOF,
        forall|j: int| 0 <= j < tokens@.len() - 1 ==> (#[trigger] tokens@[j]).matched_type != TokenType::EOF,
    ensures
        parse_outcome(r, tokens@),
        r is Ok <==> faults(tokens@).len() == 0,
        r matches Ok(f) ==> exists|k: int| feature_header(f, tokens@, k),
        r matches Ok(f) ==> children_of(f, tokens@),
        faults(tokens@).len() == 1 ==> (r matches Err(e) && reports(
            e,
            tokens@[faults(tokens@)[0].0 as int],
            faults(tokens@)[0].1,
            faults(tokens@)[0].2,
        )),
        faults(tokens@).len() >= 2 ==> (r matches Err(e) && e.location == tokens@[faults(
            tokens@,
        )[0].0 as int].location && (e.kind matches ErrorKind::CompositeError(v) && v@.len()
            == faults(tokens@).len() && forall|k: int|
            0 <= k < v@.len() ==> reports(
                #[trigger] v@[k],
                tokens@[faults(tokens@)[k].0 as int],
                faults(tokens@)[k].1,
                faults(tokens@)[k].2,
            ))),
{
    let found = find_faults(&tokens);
    if found.len() == 0 {
        let f = build_feature(&tokens);
        let ghost k = choose|k: int| feature_header(f, tokens@, k);
        assert(feature_header(f, tokens@, k));
        let r = Ok(f);
        assert(r matches Ok(g) && g == f);
        return r;
    }
    let n = tokens.len();
    proof {
        lemma_fault_order(tokens@);
    }
    let ghost ts = tokens@;
    let mut errors = fault_errors(tokens, &found);
    if errors.len() == 1 {
        let e = errors.pop().unwrap();
        Err(e)
    } else {
        let location = errors[0].location;
        Err(ParserError::new(ErrorKind::CompositeError(errors), location))
    }
}

/// Parses a document given as its lines, reading it in the provider's
/// default language until a language directive says otherwise. Fails with
/// `NoSuchLanguage` where the default or a directive names no dialect.
/// Otherwise the lines, classified one after the other by a fresh matcher,
/// give tokens on which the outcome is as `parse_tokens` states it.
pub fn parse<'a>(provider: &'a GherkinDialectProvider, lines: Vec<String>) -> (r: Result<
    Feature,
    ParserError<'a>,
>)
    requires
        lines@.len() < usize::MAX,
        forall|i: int| 0 <= i < lines@.len() ==> (#[trigger] lines@[i])@.len() <= isize::MAX,
    ensures
        !provider.has_language(provider.default_code()) ==> (r matches Err(e) && (e.kind matches ErrorKind::NoSuchLanguage(l)
            && l@ == provider.default_code())),
        provider.has_language(provider.default_code()) ==> (exists|
            ms: Seq<TokenMatcher<'a>>,
            raw: Seq<Token<'a>>,
            ts: Seq<Token<'a>>,
        |
            #[trigger] reads(ms, raw, ts, lines.deep_view(), 0) && fresh_matcher(ms[0], provider)
                && ts.len() == lines@.len() + 1 && parse_outcome(r, ts)) || (r matches Err(e) && exists|
            ms: Seq<TokenMatcher<'a>>,
            raw: Seq<Token<'a>>,
            ts: Seq<Token<'a>>,
            f: Token<'a>,
        |
            #![trigger reads(ms, raw, ts, lines.deep_view(), 0), fails_on(ms.last(), f, e)]
            reads(ms, raw, ts, lines.deep_view(), 0) && fresh_matcher(ms[0], provider) && scanned(
                f,
                lines.deep_view(),
                ts.len() as int,
            ) && fails_on(ms.last(), f, e)),
{
    match provider.get_default(Location::new(1, 1)) {
        Ok(_) => {},
        Err(e) => {
            return Err(e);
        },
    }
    let ghost text = lines.deep_view();
    let mut scanner = TokenScanner::new(lines, provider);
    let mut matcher = TokenMatcher::new(provider);
    let ghost start = matcher;
    assert(fresh_matcher(start, provider));
    let tokens = match read_tokens(&mut scanner, &mut matcher) {
        Ok(tokens) => tokens,
        Err(e) => {
            proof {
                let (ms, raw, ts, f) = choose|
                    ms: Seq<TokenMatcher<'a>>,
                    raw: Seq<Token<'a>>,
                    ts: Seq<Token<'a>>,
                    f: Token<'a>,
                |
                    #![trigger reads(ms, raw, ts, text, 0), fails_on(ms.last(), f, e)]
                    reads(ms, raw, ts, text, 0) && ms[0] == start && scanned(f, text, ts.len() as int)
                        && fails_on(ms.last(), f, e);
                assert(fresh_matcher(ms[0], provider));
            }
            return Err(e);
        },
    };
    let ghost ts = tokens@;
    let r = parse_tokens(tokens);
    proof {
        let (ms, raw) = choose|ms: Seq<TokenMatcher<'a>>, raw: Seq<Token<'a>>|
            #[trigger] reads(ms, raw, ts, text, 0) && ms[0] == start;
        assert(fresh_matcher(ms[0], provider));
        assert(reads(ms, raw, ts, text, 0) && fresh_matcher(ms[0], provider) && ts.len() == text.len() + 1
            && parse_outcome(r, ts));
    }
    r
}

} // verus!
