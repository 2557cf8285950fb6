//! Classifies lines into tokens. The matcher keeps the dialect in force and
//! whether a doc string is open, which decide how later lines are read.
use vstd::prelude::*;
use crate::ast::Location;
use crate::gherkin_dialect::{GherkinDialect, GherkinDialectProvider};
use crate::gherkin_line::{is_title_prefix, spans_of, GherkinLine};
use crate::parser::TokenType;
use crate::text::{
    is_space, chars_of, has_prefix_at, is_prefix, lead_space_count, string_of, trail_space_end, trim_end,
    trim_start,
};
use crate::token::Token;
use crate::{ErrorKind, ParserError};

verus! {

/// The fence that opens and closes a doc string: three double quotes, or
/// three backticks for the alternative form.
pub open spec fn fence(alternative: bool) -> Seq<char> {
    if alternative {
        seq!['`', '`', '`']
    } else {
        seq!['"', '"', '"']
    }
}

/// How a fence is written inside a doc string: each of its characters
/// behind a backslash.
pub open spec fn escaped_fence(f: Seq<char>) -> Seq<char> {
    seq!['\\', f[0], '\\', f[1], '\\', f[2]]
}

/// `s` with each occurrence of `pat`, read from the left, replaced by `rep`.
pub open spec fn replace_all(s: Seq<char>, pat: Seq<char>, rep: Seq<char>) -> Seq<char>
    decreases s.len(),
{
    if pat.len() == 0 || s.len() < pat.len() {
        s
    } else if s.subrange(0, pat.len() as int) == pat {
        rep + replace_all(s.subrange(pat.len() as int, s.len() as int), pat, rep)
    } else {
        seq![s[0]] + replace_all(s.subrange(1, s.len() as int), pat, rep)
    }
}

pub open spec fn is_language_char(c: char) -> bool {
    ('a' <= c && c <= 'z') || ('A' <= c && c <= 'Z') || c == '_' || c == '-'
}

pub open spec fn language_word() -> Seq<char> {
    seq!['l', 'a', 'n', 'g', 'u', 'a', 'g', 'e']
}

/// The language code of a `# language: <code>` line: white space may stand
/// around each part, and the code is one or more ASCII letters, `_` or `-`.
pub open spec fn language_directive(s: Seq<char>) -> Option<Seq<char>> {
    let a = trim_start(s);
    if a.len() == 0 || a[0] != '#' {
        None
    } else {
        let b = trim_start(a.subrange(1, a.len() as int));
        if !is_prefix(language_word(), b) {
            None
        } else {
            let c = trim_start(b.subrange(8, b.len() as int));
            if c.len() == 0 || c[0] != ':' {
                None
            } else {
                let code = trim_end(trim_start(c.subrange(1, c.len() as int)));
                if code.len() > 0 && forall|i: int|
                    0 <= i < code.len() ==> is_language_char(#[trigger] code[i]) {
                    Some(code)
                } else {
                    None
                }
            }
        }
    }
}

/// Whether keyword `k` opens the trimmed line `t`; a title keyword must be
/// followed by `:`.
pub open spec fn keyword_fits(k: Seq<char>, t: Seq<char>, title: bool) -> bool {
    if title {
        is_title_prefix(k, t)
    } else {
        is_prefix(k, t)
    }
}

/// `kws[i]` is the first keyword that opens `t`.
pub open spec fn first_keyword(kws: Seq<Seq<char>>, t: Seq<char>, title: bool, i: int) -> bool {
    &&& 0 <= i < kws.len()
    &&& keyword_fits(kws[i], t, title)
    &&& forall|j: int| 0 <= j < i ==> !keyword_fits(#[trigger] kws[j], t, title)
}

pub open spec fn some_keyword(kws: Seq<Seq<char>>, t: Seq<char>, title: bool) -> bool {
    exists|i: int| 0 <= i < kws.len() && keyword_fits(#[trigger] kws[i], t, title)
}

pub open spec fn opt_text(o: Option<String>) -> Option<Seq<char>> {
    match o {
        Some(s) => Some(s@),
        None => None,
    }
}

pub open spec fn opt_spans(o: Option<Vec<GherkinLineSpan>>) -> Option<Seq<(int, Seq<char>)>> {
    match o {
        Some(v) => Some(spans_of(v@)),
        None => None,
    }
}

use crate::gherkin_line_span::GherkinLineSpan;

/// `s` with each `pat` replaced by `rep`, reading from the left.
fn replace_chars(s: &Vec<char>, pat: &Vec<char>, rep: &Vec<char>) -> (r: Vec<char>)
    requires
        pat@.len() > 0,
    ensures
        r@ == replace_all(s@, pat@, rep@),
{
    let mut out: Vec<char> = Vec::new();
    let mut i: usize = 0;
    assert(s@.subrange(0, s@.len() as int) == s@);
    assert(out@ + replace_all(s@, pat@, rep@) == replace_all(s@, pat@, rep@));
    while i < s.len()
        invariant
            i <= s@.len(),
            pat@.len() > 0,
            out@ + replace_all(s@.subrange(i as int, s@.len() as int), pat@, rep@) == replace_all(
                s@,
                pat@,
                rep@,
            ),
        decreases s.len() - i,
    {
        let ghost x = s@.subrange(i as int, s@.len() as int);
        if has_prefix_at(s, i, pat) {
            let ghost before = out@;
            let mut k: usize = 0;
            while k < rep.len()
                invariant
                    k <= rep@.len(),
                    out@ == before + rep@.subrange(0, k as int),
                decreases rep.len() - k,
            {
                out.push(rep[k]);
                assert(rep@.subrange(0, k + 1) == rep@.subrange(0, k as int).push(rep@[k as int]));
                k += 1;
            }
            assert(rep@.subrange(0, rep@.len() as int) == rep@);
            assert(x.subrange(pat@.len() as int, x.len() as int) == s@.subrange(
                i + pat@.len(),
                s@.len() as int,
            ));
            assert(before + (rep@ + replace_all(x.subrange(pat@.len() as int, x.len() as int), pat@, rep@)) == out@ + replace_all(s@.subrange(i + pat@.len(), s@.len() as int), pat@, rep@));
            i = i + pat.len();
        } else {
            let ghost before = out@;
            out.push(s[i]);
            assert(x.subrange(1, x.len() as int) == s@.subrange(i + 1, s@.len() as int));
            proof {
                if x.len() < pat@.len() {
                    let y = x.subrange(1, x.len() as int);
                    assert(replace_all(y, pat@, rep@) == y);
                    assert(x == seq![x[0]] + y);
                }
            }
            assert(replace_all(x, pat@, rep@) == seq![x[0]] + replace_all(x.subrange(1, x.len() as int), pat@, rep@));
            assert(before + (seq![x[0]] + replace_all(x.subrange(1, x.len() as int), pat@, rep@)) == out@ + replace_all(s@.subrange(i + 1, s@.len() as int), pat@, rep@));
            i = i + 1;
        }
    }
    assert(s@.subrange(s@.len() as int, s@.len() as int) == Seq::<char>::empty());
    assert(out@ + Seq::<char>::empty() == out@);
    out
}

/// The code of a language directive, as `language_directive` states it.
fn language_code(v: &Vec<char>) -> (r: Option<String>)
    requires
        v@.len() <= isize::MAX,
    ensures
        opt_text(r) == language_directive(v@),
{
    let n = v.len();
    assert(v@.subrange(0, n as int) == v@);
    let a = lead_space_count(v, 0);
    let ghost sa = trim_start(v@);
    if a >= n || v[a] != '#' {
        return None;
    }
    assert(sa.subrange(1, sa.len() as int) == v@.subrange(a + 1, n as int));
    let b = a + 1 + lead_space_count(v, a + 1);
    let ghost sb = trim_start(sa.subrange(1, sa.len() as int));
    assert(sb == v@.subrange(b as int, n as int));
    let word = vec!['l', 'a', 'n', 'g', 'u', 'a', 'g', 'e'];
    assert(word@ == language_word());
    if !has_prefix_at(v, b, &word) {
        return None;
    }
    assert(sb.subrange(8, sb.len() as int) == v@.subrange(b + 8, n as int));
    let c = b + 8 + lead_space_count(v, b + 8);
    let ghost sc = trim_start(sb.subrange(8, sb.len() as int));
    assert(sc == v@.subrange(c as int, n as int));
    if c >= n || v[c] != ':' {
        return None;
    }
    assert(sc.subrange(1, sc.len() as int) == v@.subrange(c + 1, n as int));
    let d = c + 1 + lead_space_count(v, c + 1);
    let e = trail_space_end(v, d, n);
    let ghost code = trim_end(trim_start(sc.subrange(1, sc.len() as int)));
    assert(code == v@.subrange(d as int, e as int));
    if e == d {
        assert(code.len() == 0);
        assert(sa.len() > 0 && sa[0] == '#');
        assert(is_prefix(language_word(), sb));
        assert(sc.len() > 0 && sc[0] == ':');
        return None;
    }
    let mut i = d;
    assert(sa.len() > 0 && sa[0] == '#');
    assert(is_prefix(language_word(), sb));
    assert(sc.len() > 0 && sc[0] == ':');
    assert(language_directive(v@) == (if forall|j: int|
        0 <= j < code.len() ==> is_language_char(#[trigger] code[j]) {
        Some(code)
    } else {
        None
    }));
    while i < e
        invariant
            d <= i <= e <= v@.len(),
            code == v@.subrange(d as int, e as int),
            language_directive(v@) == (if forall|j: int|
                0 <= j < code.len() ==> is_language_char(#[trigger] code[j]) {
                Some(code)
            } else {
                None
            }),
            forall|j: int| 0 <= j < i - d ==> is_language_char(#[trigger] code[j]),
        decreases e - i,
    {
        let ch = v[i];
        if !(('a' <= ch && ch <= 'z') || ('A' <= ch && ch <= 'Z') || ch == '_' || ch == '-') {
            assert(!is_language_char(code[i - d]));
            return None;
        }
        i += 1;
    }
    Some(string_of(v, d, e))
}

/// A sequence that opens with a character other than white space keeps it
/// when trailing white space is trimmed.
pub proof fn lemma_trim_end_keeps_front(s: Seq<char>)
    requires
        s.len() > 0,
        !is_space(s[0]),
    ensures
        trim_end(s).len() > 0,
    decreases s.len(),
{
    if is_space(s.last()) {
        assert(s.len() > 1);
        assert(s.drop_last()[0] == s[0]);
        lemma_trim_end_keeps_front(s.drop_last());
    }
}

/// A `# language:` line is read as a language directive, never as the
/// comment that it also is, wherever no doc string is open.
pub proof fn lemma_language_before_comment<'a>(m: TokenMatcher<'a>, l: GherkinLine)
    requires
        m.separator() is None,
        language_directive(l.text()) is Some,
    ensures
        m.first_rule(Some(l)) == TokenType::Language,
{
    let a = trim_start(l.text());
    assert(a.len() > 0 && a[0] == '#');
    lemma_trim_end_keeps_front(a);
}

/// At the end of input the matcher classifies the token without a line as
/// `EOF`, with indentation 0, at column 1 of the line the token was given.
pub proof fn lemma_end_of_input<'a>(
    m: TokenMatcher<'a>,
    next: TokenMatcher<'a>,
    before: Token<'a>,
    after: Token<'a>,
)
    requires
        before.line is None,
        m.rule_result(next, before, after, m.first_rule(before.line)),
    ensures
        after.matched_type == TokenType::EOF,
        after.matched_indent == 0,
        after.location.line == before.location.line,
        after.location.column == 1,
        after.line is None,
{
}

/// Classifies lines, one rule per token type.
pub struct TokenMatcher<'a> {
    provider: &'a GherkinDialectProvider,
    current_dialect: &'a GherkinDialect,
    active_doc_string_separator: Option<&'static str>,
    indent_to_remove: usize,
}

impl<'a> TokenMatcher<'a> {
    #[verifier::type_invariant]
    closed spec fn inv(&self) -> bool {
        &&& self.provider.has_language(self.provider.default_code())
        &&& match self.active_doc_string_separator {
            Some(f) => f@ == fence(false) || f@ == fence(true),
            None => self.indent_to_remove == 0,
        }
    }

    pub closed spec fn provider(&self) -> &'a GherkinDialectProvider {
        self.provider
    }

    /// The dialect in force.
    pub closed spec fn dialect(&self) -> &'a GherkinDialect {
        self.current_dialect
    }

    /// The fence of the open doc string, if one is open.
    pub closed spec fn separator(&self) -> Option<Seq<char>> {
        match self.active_doc_string_separator {
            Some(f) => Some(f@),
            None => None,
        }
    }

    /// How much indentation is taken off the lines of the open doc string.
    pub closed spec fn strip(&self) -> nat {
        self.indent_to_remove as nat
    }

    /// What `matchOther` keeps of line `l`.
    pub open spec fn other_text(&self, l: GherkinLine) -> Seq<char> {
        let base = if self.strip() > l.spec_indent() {
            l.text()
        } else {
            l.text().subrange(self.strip() as int, l.text().len() as int)
        };
        match self.separator() {
            Some(f) => replace_all(base, escaped_fence(f), f),
            None => base,
        }
    }

    /// Whether the rule for `ty` accepts `line`.
    pub open spec fn rule_holds(&self, line: Option<GherkinLine>, ty: TokenType) -> bool {
        match line {
            None => ty == TokenType::EOF,
            Some(l) => {
                let t = l.trimmed_text();
                match ty {
                    TokenType::Empty => t.len() == 0,
                    TokenType::Comment => is_prefix(seq!['#'], t),
                    TokenType::TagLine => is_prefix(seq!['@'], t),
                    TokenType::FeatureLine => some_keyword(self.dialect().feature(), t, true),
                    TokenType::BackgroundLine => some_keyword(self.dialect().background(), t, true),
                    TokenType::ScenarioLine => some_keyword(self.dialect().scenario(), t, true),
                    TokenType::ScenarioOutlineLine => some_keyword(
                        self.dialect().scenario_outline(),
                        t,
                        true,
                    ),
                    TokenType::ExamplesLine => some_keyword(self.dialect().examples(), t, true),
                    TokenType::StepLine => some_keyword(self.dialect().steps(), t, false),
                    TokenType::DocStringSeparator => match self.separator() {
                        None => is_prefix(fence(false), t) || is_prefix(fence(true), t),
                        Some(f) => is_prefix(f, t),
                    },
                    TokenType::TableRow => is_prefix(seq!['|'], t),
                    TokenType::Language => language_directive(l.text()) is Some,
                    TokenType::Other => true,
                    _ => false,
                }
            },
        }
    }

    /// The rule that classifies `line`: inside a doc string only its closing
    /// fence is looked for; elsewhere the rules are tried in this order, the
    /// language directive before the comment that it also is.
    pub open spec fn first_rule(&self, line: Option<GherkinLine>) -> TokenType {
        if line is None {
            TokenType::EOF
        } else if self.separator() is Some {
            if self.rule_holds(line, TokenType::DocStringSeparator) {
                TokenType::DocStringSeparator
            } else {
                TokenType::Other
            }
        } else if self.rule_holds(line, TokenType::Empty) {
            TokenType::Empty
        } else if self.rule_holds(line, TokenType::Language) {
            TokenType::Language
        } else if self.rule_holds(line, TokenType::Comment) {
            TokenType::Comment
        } else if self.rule_holds(line, TokenType::TagLine) {
            TokenType::TagLine
        } else if self.rule_holds(line, TokenType::FeatureLine) {
            TokenType::FeatureLine
        } else if self.rule_holds(line, TokenType::BackgroundLine) {
            TokenType::BackgroundLine
        } else if self.rule_holds(line, TokenType::ScenarioLine) {
            TokenType::ScenarioLine
        } else if self.rule_holds(line, TokenType::ScenarioOutlineLine) {
            TokenType::ScenarioOutlineLine
        } else if self.rule_holds(line, TokenType::ExamplesLine) {
            TokenType::ExamplesLine
        } else if self.rule_holds(line, TokenType::StepLine) {
            TokenType::StepLine
        } else if self.rule_holds(line, TokenType::DocStringSeparator) {
            TokenType::DocStringSeparator
        } else if self.rule_holds(line, TokenType::TableRow) {
            TokenType::TableRow
        } else {
            TokenType::Other
        }
    }

    /// The keyword and text that a title or step rule takes from `t`.
    pub open spec fn keyword_result(
        kws: Seq<Seq<char>>,
        t: Seq<char>,
        title: bool,
        kw: Option<Seq<char>>,
        text: Option<Seq<char>>,
    ) -> bool {
        exists|i: int|
            #[trigger] first_keyword(kws, t, title, i) && kw == Some(kws[i]) && text == Some(
                crate::text::trim(
                    t.subrange(kws[i].len() + (if title { 1int } else { 0int }), t.len() as int),
                ),
            )
    }

    /// What the rule for `ty` makes of token `old_t` and of the matcher:
    /// `new_t` and `new_m` are the token and the matcher after it.
    pub open spec fn rule_result(
        &self,
        new_m: TokenMatcher<'a>,
        old_t: Token<'a>,
        new_t: Token<'a>,
        ty: TokenType,
    ) -> bool {
        let indent: nat = match old_t.line {
            Some(l) => if ty == TokenType::Comment {
                0
            } else {
                l.spec_indent()
            },
            None => 0,
        };
        &&& new_t.line == old_t.line
        &&& new_t.matched_type == ty
        &&& new_t.matched_indent == indent
        &&& new_t.matched_gherkin_dialect == self.dialect()
        &&& new_t.location.line == old_t.location.line
        &&& new_t.location.column == indent + 1
        &&& new_m.provider() == self.provider()
        &&& (ty != TokenType::Language ==> new_m.dialect() == self.dialect())
        &&& (ty != TokenType::DocStringSeparator ==> new_m.separator() == self.separator()
            && new_m.strip() == self.strip())
        &&& (ty == TokenType::TagLine ==> opt_spans(new_t.matched_items) == Some(
            old_t.line->0.tag_spans(),
        ))
        &&& (ty == TokenType::TableRow ==> opt_spans(new_t.matched_items) == Some(
            old_t.line->0.cell_spans(),
        ))
        &&& (ty != TokenType::TagLine && ty != TokenType::TableRow ==> new_t.matched_items
            is None)
        &&& match ty {
            TokenType::FeatureLine => Self::keyword_result(
                self.dialect().feature(),
                old_t.line->0.trimmed_text(),
                true,
                opt_text(new_t.matched_keyword),
                opt_text(new_t.matched_text),
            ),
            TokenType::BackgroundLine => Self::keyword_result(
                self.dialect().background(),
                old_t.line->0.trimmed_text(),
                true,
                opt_text(new_t.matched_keyword),
                opt_text(new_t.matched_text),
            ),
            TokenType::ScenarioLine => Self::keyword_result(
                self.dialect().scenario(),
                old_t.line->0.trimmed_text(),
                true,
                opt_text(new_t.matched_keyword),
                opt_text(new_t.matched_text),
            ),
            TokenType::ScenarioOutlineLine => Self::keyword_result(
                self.dialect().scenario_outline(),
                old_t.line->0.trimmed_text(),
                true,
                opt_text(new_t.matched_keyword),
                opt_text(new_t.matched_text),
            ),
            TokenType::ExamplesLine => Self::keyword_result(
                self.dialect().examples(),
                old_t.line->0.trimmed_text(),
                true,
                opt_text(new_t.matched_keyword),
                opt_text(new_t.matched_text),
            ),
            TokenType::StepLine => Self::keyword_result(
                self.dialect().steps(),
                old_t.line->0.trimmed_text(),
                false,
                opt_text(new_t.matched_keyword),
                opt_text(new_t.matched_text),
            ),
            TokenType::Comment => new_t.matched_keyword is None && opt_text(new_t.matched_text)
                == Some(old_t.line->0.text()),
            TokenType::Language => {
                let code = language_directive(old_t.line->0.text())->0;
                &&& new_t.matched_keyword is None
                &&& opt_text(new_t.matched_text) == Some(code)
                &&& *new_m.dialect() == self.provider().dialect_for(code)
            },
            TokenType::Other => new_t.matched_keyword is None && opt_text(new_t.matched_text)
                == Some(self.other_text(old_t.line->0)),
            TokenType::DocStringSeparator => {
                let t = old_t.line->0.trimmed_text();
                &&& new_t.matched_keyword is None
                &&& match self.separator() {
                    None => {
                        let f = if is_prefix(fence(false), t) {
                            fence(false)
                        } else {
                            fence(true)
                        };
                        &&& new_m.separator() == Some(f)
                        &&& new_m.strip() == old_t.line->0.spec_indent()
                        &&& opt_text(new_t.matched_text) == Some(
                            crate::text::trim(t.subrange(3, t.len() as int)),
                        )
                    },
                    Some(_) => {
                        &&& new_m.separator() is None
                        &&& new_m.strip() == 0
                        &&& new_t.matched_text is None
                    },
                }
            },
            _ => new_t.matched_keyword is None && new_t.matched_text is None,
        }
    }

    /// A matcher in the default dialect with no doc string open.
    pub fn new(provider: &'a GherkinDialectProvider) -> (r: TokenMatcher<'a>)
        requires
            provider.has_language(provider.default_code()),
        ensures
            r.provider() == provider,
            *r.dialect() == provider.dialect_for(provider.default_code()),
            r.separator() is None,
            r.strip() == 0,
    {
        let d = match provider.get_default(Location::new(1, 0)) {
            Ok(d) => d,
            Err(_) => {
                proof {
                    assert(false);
                }
                vstd::pervasive::unreached()
            },
        };
        TokenMatcher {
            provider,
            current_dialect: d,
            active_doc_string_separator: None,
            indent_to_remove: 0,
        }
    }

    /// Back to the default dialect with no doc string open, as for a new
    /// document.
    pub fn reset(&mut self)
        ensures
            final(self).provider() == old(self).provider(),
            *final(self).dialect() == old(self).provider().dialect_for(
                old(self).provider().default_code(),
            ),
            final(self).separator() is None,
            final(self).strip() == 0,
    {
        proof {
            use_type_invariant(&*self);
        }
        let d = match self.provider.get_default(Location::new(1, 0)) {
            Ok(d) => d,
            Err(_) => {
                proof {
                    assert(false);
                }
                vstd::pervasive::unreached()
            },
        };
        self.indent_to_remove = 0;
        self.active_doc_string_separator = None;
        self.current_dialect = d;
    }

    fn set_token_matched(
        &self,
        token: &mut Token<'a>,
        matched_type: TokenType,
        text: Option<String>,
        keyword: Option<String>,
        indent: Option<usize>,
        items: Option<Vec<GherkinLineSpan>>,
    )
        requires
            match indent {
                Some(i) => i < usize::MAX,
                None => true,
            },
        ensures
            final(token).line == old(token).line,
            final(token).matched_type == matched_type,
            final(token).matched_text == text,
            final(token).matched_keyword == keyword,
            final(token).matched_items == items,
            final(token).matched_gherkin_dialect == self.dialect(),
            final(token).matched_indent == match indent {
                Some(i) => i as nat,
                None => match old(token).line {
                    Some(l) => l.spec_indent(),
                    None => 0,
                },
            },
            final(token).location.line == old(token).location.line,
            final(token).location.column == final(token).matched_indent + 1,
    {
        token.matched_type = matched_type;
        token.matched_keyword = keyword;
        token.matched_text = text;
        token.matched_items = items;
        token.matched_gherkin_dialect = self.current_dialect;
        token.matched_indent = match indent {
            Some(indent) => indent,
            None => match &token.line {
                Some(line) => line.indent(),
                None => 0,
            },
        };
        token.location = Location::new(token.location.line, token.matched_indent + 1);
    }

    /// Tries `keywords` in order on the trimmed line; `title` asks for the
    /// `:` after the keyword.
    fn match_keyword_line(
        &self,
        token: &mut Token<'a>,
        token_type: TokenType,
        keywords: &Vec<String>,
        title: bool,
    ) -> (r: bool)
        ensures
            r == (old(token).line matches Some(l) && some_keyword(
                keywords.deep_view(),
                l.trimmed_text(),
                title,
            )),
            r ==> {
                let l = old(token).line->0;
                &&& final(token).line == old(token).line
                &&& final(token).matched_type == token_type
                &&& final(token).matched_indent == l.spec_indent()
                &&& final(token).matched_gherkin_dialect == self.dialect()
                &&& final(token).location.line == old(token).location.line
                &&& final(token).location.column == l.spec_indent() + 1
                &&& final(token).matched_items is None
                &&& Self::keyword_result(
                    keywords.deep_view(),
                    l.trimmed_text(),
                    title,
                    opt_text(final(token).matched_keyword),
                    opt_text(final(token).matched_text),
                )
            },
            !r ==> *final(token) == *old(token),
    {
        let ghost kws = keywords.deep_view();
        assert(kws.len() == keywords@.len());
        let found: Option<(String, String)> = match &token.line {
            None => None,
            Some(line) => {
                let ghost t = line.trimmed_text();
                let mut result: Option<(String, String)> = None;
                let mut i: usize = 0;
                while i < keywords.len() && result.is_none()
                    invariant
                        i <= keywords@.len(),
                        kws == keywords.deep_view(),
                        kws.len() == keywords@.len(),
                        t == line.trimmed_text(),
                        result is None ==> forall|j: int|
                            0 <= j < i ==> !keyword_fits(#[trigger] kws[j], t, title),
                        result matches Some(p) ==> Self::keyword_result(
                            kws,
                            t,
                            title,
                            Some(p.0@),
                            Some(p.1@),
                        ),
                    decreases keywords.len() - i + (if result is None { 1int } else { 0int }),
                {
                    let keyword = &keywords[i];
                    assert(keyword@ == kws[i as int]);
                    let fits = if title {
                        line.starts_with_title_keyword(keyword.as_str())
                    } else {
                        line.starts_with(keyword.as_str())
                    };
                    if fits {
                        let n = chars_of(keyword.as_str()).len();
                        let skip = if title {
                            n + 1
                        } else {
                            n
                        };
                        let text = line.get_rest_trimmed(skip);
                        assert(fits == keyword_fits(keyword@, t, title));
                        assert(keyword_fits(kws[i as int], t, title));
                        assert(forall|j: int| 0 <= j < i ==> !keyword_fits(#[trigger] kws[j], t, title));
                        assert(first_keyword(kws, t, title, i as int));
                        result = Some((keyword.clone(), text));
                    } else {
                        i += 1;
                    }
                }
                result
            },
        };
        match found {
            Some((keyword, text)) => {
                proof {
                    let t = token.line->0.trimmed_text();
                    let i = choose|i: int|
                        #[trigger] first_keyword(kws, t, title, i) && Some(keyword@) == Some(kws[i]);
                    assert(keyword_fits(kws[i], t, title));
                }
                self.set_token_matched(token, token_type, Some(text), Some(keyword), None, None);
                true
            },
            None => false,
        }
    }

    /// The end of the input.
    #[allow(non_snake_case)]
    pub fn match_EOF(&self, token: &mut Token<'a>) -> (r: bool)
        ensures
            r == self.rule_holds(old(token).line, TokenType::EOF),
            r ==> self.rule_result(*self, *old(token), *final(token), TokenType::EOF),
            !r ==> *final(token) == *old(token),
    {
        if token.is_eof() {
            self.set_token_matched(token, TokenType::EOF, None, None, None, None);
            true
        } else {
            false
        }
    }

    /// A line of white space only.
    #[allow(non_snake_case)]
    pub fn match_Empty(&self, token: &mut Token<'a>) -> (r: bool)
        ensures
            r == self.rule_holds(old(token).line, TokenType::Empty),
            r ==> self.rule_result(*self, *old(token), *final(token), TokenType::Empty),
            !r ==> *final(token) == *old(token),
    {
        let hit = match &token.line {
            Some(line) => line.is_empty(),
            None => false,
        };
        if hit {
            self.set_token_matched(token, TokenType::Empty, None, None, None, None);
        }
        hit
    }

    /// A comment: the whole line is kept, and its indentation counts as 0.
    #[allow(non_snake_case)]
    pub fn match_Comment(&self, token: &mut Token<'a>) -> (r: bool)
        ensures
            r == self.rule_holds(old(token).line, TokenType::Comment),
            r ==> self.rule_result(*self, *old(token), *final(token), TokenType::Comment),
            !r ==> *final(token) == *old(token),
    {
        proof {
            reveal_strlit("#");
            assert("#"@ == seq!['#']);
        }
        let text = match &token.line {
            Some(line) => if line.starts_with("#") {
                assert(line.text().subrange(0, line.text().len() as int) == line.text());
                Some(line.get_line_text(0))
            } else {
                None
            },
            None => None,
        };
        match text {
            Some(text) => {
                self.set_token_matched(token, TokenType::Comment, Some(text), None, Some(0), None);
                true
            },
            None => false,
        }
    }

    /// A line of tags.
    #[allow(non_snake_case)]
    pub fn match_TagLine(&self, token: &mut Token<'a>) -> (r: bool)
        ensures
            r == self.rule_holds(old(token).line, TokenType::TagLine),
            r ==> self.rule_result(*self, *old(token), *final(token), TokenType::TagLine),
            !r ==> *final(token) == *old(token),
    {
        proof {
            reveal_strlit("@");
            assert("@"@ == seq!['@']);
        }
        let tags = match &token.line {
            Some(line) => if line.starts_with("@") {
                Some(line.get_tags())
            } else {
                None
            },
            None => None,
        };
        match tags {
            Some(tags) => {
                self.set_token_matched(token, TokenType::TagLine, None, None, None, Some(tags));
                true
            },
            None => false,
        }
    }

    #[allow(non_snake_case)]
    pub fn match_FeatureLine(&self, token: &mut Token<'a>) -> (r: bool)
        ensures
            r == self.rule_holds(old(token).line, TokenType::FeatureLine),
            r ==> self.rule_result(*self, *old(token), *final(token), TokenType::FeatureLine),
            !r ==> *final(token) == *old(token),
    {
        let keywords = self.current_dialect.get_feature_keywords();
        self.match_keyword_line(token, TokenType::FeatureLine, keywords, true)
    }

    #[allow(non_snake_case)]
    pub fn match_BackgroundLine(&self, token: &mut Token<'a>) -> (r: bool)
        ensures
            r == self.rule_holds(old(token).line, TokenType::BackgroundLine),
            r ==> self.rule_result(*self, *old(token), *final(token), TokenType::BackgroundLine),
            !r ==> *final(token) == *old(token),
    {
        let keywords = self.current_dialect.get_background_keywords();
        self.match_keyword_line(token, TokenType::BackgroundLine, keywords, true)
    }

    #[allow(non_snake_case)]
    pub fn match_ScenarioLine(&self, token: &mut Token<'a>) -> (r: bool)
        ensures
            r == self.rule_holds(old(token).line, TokenType::ScenarioLine),
            r ==> self.rule_result(*self, *old(token), *final(token), TokenType::ScenarioLine),
            !r ==> *final(token) == *old(token),
    {
        let keywords = self.current_dialect.get_scenario_keywords();
        self.match_keyword_line(token, TokenType::ScenarioLine, keywords, true)
    }

    #[allow(non_snake_case)]
    pub fn match_ScenarioOutlineLine(&self, token: &mut Token<'a>) -> (r: bool)
        ensures
            r == self.rule_holds(old(token).line, TokenType::ScenarioOutlineLine),
            r ==> self.rule_result(
                *self,
                *old(token),
                *final(token),
                TokenType::ScenarioOutlineLine,
            ),
            !r ==> *final(token) == *old(token),
    {
        let keywords = self.current_dialect.get_scenario_outline_keywords();
        self.match_keyword_line(token, TokenType::ScenarioOutlineLine, keywords, true)
    }

    #[allow(non_snake_case)]
    pub fn match_ExamplesLine(&self, token: &mut Token<'a>) -> (r: bool)
        ensures
            r == self.rule_holds(old(token).line, TokenType::ExamplesLine),
            r ==> self.rule_result(*self, *old(token), *final(token), TokenType::ExamplesLine),
            !r ==> *final(token) == *old(token),
    {
        let keywords = self.current_dialect.get_examples_keywords();
        self.match_keyword_line(token, TokenType::ExamplesLine, keywords, true)
    }

    /// A step: the first step keyword that opens the line, with no `:` needed.
    #[allow(non_snake_case)]
    pub fn match_StepLine(&self, token: &mut Token<'a>) -> (r: bool)
        ensures
            r == self.rule_holds(old(token).line, TokenType::StepLine),
            r ==> self.rule_result(*self, *old(token), *final(token), TokenType::StepLine),
            !r ==> *final(token) == *old(token),
    {
        let keywords = self.current_dialect.get_step_keywords();
        self.match_keyword_line(token, TokenType::StepLine, keywords, false)
    }

    /// A table row.
    #[allow(non_snake_case)]
    pub fn match_TableRow(&self, token: &mut Token<'a>) -> (r: bool)
        ensures
            r == self.rule_holds(old(token).line, TokenType::TableRow),
            r ==> self.rule_result(*self, *old(token), *final(token), TokenType::TableRow),
            !r ==> *final(token) == *old(token),
    {
        proof {
            reveal_strlit("|");
            assert("|"@ == seq!['|']);
        }
        let cells = match &token.line {
            Some(line) => if line.starts_with("|") {
                Some(line.get_table_cells())
            } else {
                None
            },
            None => None,
        };
        match cells {
            Some(cells) => {
                self.set_token_matched(token, TokenType::TableRow, None, None, None, Some(cells));
                true
            },
            None => false,
        }
    }

    fn match_specific_doc_string_separator(
        &mut self,
        token: &mut Token<'a>,
        separator: &'static str,
        is_open: bool,
    ) -> (r: bool)
        requires
            separator@ == fence(false) || separator@ == fence(true),
        ensures
            r == (old(token).line matches Some(l) && is_prefix(separator@, l.trimmed_text())),
            r ==> {
                let l = old(token).line->0;
                let t = l.trimmed_text();
                &&& final(token).line == old(token).line
                &&& final(token).matched_type == TokenType::DocStringSeparator
                &&& final(token).matched_indent == l.spec_indent()
                &&& final(token).matched_gherkin_dialect == old(self).dialect()
                &&& final(token).location.line == old(token).location.line
                &&& final(token).location.column == l.spec_indent() + 1
                &&& final(token).matched_items is None
                &&& final(token).matched_keyword is None
                &&& final(self).provider() == old(self).provider()
                &&& final(self).dialect() == old(self).dialect()
                &&& if is_open {
                    &&& final(self).separator() == Some(separator@)
                    &&& final(self).strip() == l.spec_indent()
                    &&& opt_text(final(token).matched_text) == Some(
                        crate::text::trim(t.subrange(3, t.len() as int)),
                    )
                } else {
                    &&& final(self).separator() is None
                    &&& final(self).strip() == 0
                    &&& final(token).matched_text is None
                }
            },
            !r ==> *final(token) == *old(token) && *final(self) == *old(self),
    {
        proof {
            use_type_invariant(&*self);
        }
        let found: Option<(String, usize)> = match &token.line {
            Some(line) => if line.starts_with(separator) {
                if is_open {
                    Some((line.get_rest_trimmed(3), line.indent()))
                } else {
                    Some((String::new(), 0))
                }
            } else {
                None
            },
            None => None,
        };
        match found {
            Some((content_type, indent)) => {
                if is_open {
                    self.active_doc_string_separator = Some(separator);
                    self.indent_to_remove = indent;
                    self.set_token_matched(
                        token,
                        TokenType::DocStringSeparator,
                        Some(content_type),
                        None,
                        None,
                        None,
                    );
                } else {
                    self.indent_to_remove = 0;
                    self.active_doc_string_separator = None;
                    self.set_token_matched(
                        token,
                        TokenType::DocStringSeparator,
                        None,
                        None,
                        None,
                        None,
                    );
                }
                true
            },
            None => false,
        }
    }

    /// A doc string fence: with no doc string open, `"""` or else the
    /// alternative fence opens one, and the rest of the line is its content
    /// type; with one open, only its own fence closes it.
    #[allow(non_snake_case)]
    pub fn match_DocStringSeparator(&mut self, token: &mut Token<'a>) -> (r: bool)
        ensures
            r == old(self).rule_holds(old(token).line, TokenType::DocStringSeparator),
            r ==> old(self).rule_result(
                *final(self),
                *old(token),
                *final(token),
                TokenType::DocStringSeparator,
            ),
            !r ==> *final(token) == *old(token) && *final(self) == *old(self),
    {
        proof {
            use_type_invariant(&*self);
            reveal_strlit("\"\"\"");
            reveal_strlit("```");
            assert("\"\"\""@ == fence(false));
            assert("```"@ == fence(true));
        }
        match self.active_doc_string_separator {
            None => {
                if self.match_specific_doc_string_separator(token, "\"\"\"", true) {
                    true
                } else {
                    self.match_specific_doc_string_separator(token, "```", true)
                }
            },
            Some(separator) => self.match_specific_doc_string_separator(token, separator, false),
        }
    }

    /// `text` with the escaped fence of the open doc string, if any, turned
    /// back into the fence.
    fn unescape_doc_string(&self, text: String) -> (r: String)
        ensures
            r@ == match self.separator() {
                Some(f) => replace_all(text@, escaped_fence(f), f),
                None => text@,
            },
    {
        proof {
            use_type_invariant(self);
        }
        match self.active_doc_string_separator {
            Some(separator) => {
                let f = chars_of(separator);
                let pat = vec!['\\', f[0], '\\', f[1], '\\', f[2]];
                assert(pat@ == escaped_fence(f@));
                let v = chars_of(text.as_str());
                let out = replace_chars(&v, &pat, &f);
                string_of(&out, 0, out.len())
            },
            None => text,
        }
    }

    /// Any line: its text without the indentation that the open doc string
    /// strips, with escaped fences turned back.
    #[allow(non_snake_case)]
    pub fn match_Other(&self, token: &mut Token<'a>) -> (r: bool)
        ensures
            r == self.rule_holds(old(token).line, TokenType::Other),
            r ==> self.rule_result(*self, *old(token), *final(token), TokenType::Other),
            !r ==> *final(token) == *old(token),
    {
        let text = match &token.line {
            Some(line) => Some(line.get_line_text(self.indent_to_remove)),
            None => None,
        };
        match text {
            Some(text) => {
                let text = self.unescape_doc_string(text);
                proof {
                    let l = token.line->0;
                    assert(text@.subrange(0, text@.len() as int) == text@);
                }
                self.set_token_matched(token, TokenType::Other, Some(text), None, None, None);
                true
            },
            None => false,
        }
    }

    /// A `# language: <code>` line. It switches the matcher to that language
    /// for the lines that follow, and fails with `NoSuchLanguage` where the
    /// code names no dialect; the token itself is read in the dialect in
    /// force before it.
    #[allow(non_snake_case)]
    pub fn match_Language(&mut self, token: &mut Token<'a>) -> (r: Result<bool, ParserError<'a>>)
        ensures
            match r {
                Ok(true) => old(self).rule_holds(old(token).line, TokenType::Language)
                    && old(self).provider().has_language(
                    language_directive(old(token).line->0.text())->0,
                ) && old(self).rule_result(
                    *final(self),
                    *old(token),
                    *final(token),
                    TokenType::Language,
                ),
                Ok(false) => !old(self).rule_holds(old(token).line, TokenType::Language)
                    && *final(token) == *old(token) && *final(self) == *old(self),
                Err(e) => {
                    let l = old(token).line->0;
                    let code = language_directive(l.text())->0;
                    &&& old(self).rule_holds(old(token).line, TokenType::Language)
                    &&& !old(self).provider().has_language(code)
                    &&& (e.kind matches ErrorKind::NoSuchLanguage(c) && c@ == code)
                    &&& e.location.line == old(token).location.line
                    &&& e.location.column == l.spec_indent() + 1
                    &&& *final(token) == *old(token)
                    &&& *final(self) == *old(self)
                },
            },
    {
        proof {
            use_type_invariant(&*self);
        }
        let found: Option<(String, usize)> = match &token.line {
            Some(line) => {
                let indent = line.indent();
                let full = line.get_line_text(0);
                assert(line.text().subrange(0, line.text().len() as int) == line.text());
                let v = chars_of(full.as_str());
                match language_code(&v) {
                    Some(code) => Some((code, indent)),
                    None => None,
                }
            },
            None => None,
        };
        match found {
            None => Ok(false),
            Some((code, indent)) => {
                let location = Location::new(token.location.line, indent + 1);
                match self.provider.get_dialect(code.as_str(), location) {
                    Ok(dialect) => {
                        self.set_token_matched(token, TokenType::Language, Some(code), None, None, None);
                        self.current_dialect = dialect;
                        Ok(true)
                    },
                    Err(e) => Err(e),
                }
            },
        }
    }

    /// Classifies `token` by the first rule that accepts it. Fails only
    /// where a language directive names an unknown language.
    pub fn match_token(&mut self, token: &mut Token<'a>) -> (r: Result<(), ParserError<'a>>)
        ensures
            match r {
                Ok(()) => old(self).rule_result(
                    *final(self),
                    *old(token),
                    *final(token),
                    old(self).first_rule(old(token).line),
                ) && (old(self).first_rule(old(token).line) == TokenType::Language
                    ==> old(self).provider().has_language(
                    language_directive(old(token).line->0.text())->0,
                )),
                Err(e) => {
                    let code = language_directive(old(token).line->0.text())->0;
                    &&& old(self).first_rule(old(token).line) == TokenType::Language
                    &&& !old(self).provider().has_language(code)
                    &&& (e.kind matches ErrorKind::NoSuchLanguage(c) && c@ == code)
                },
            },
    {
        if self.match_EOF(token) {
            return Ok(());
        }
        if self.active_doc_string_separator.is_some() {
            if self.match_DocStringSeparator(token) {
                return Ok(());
            }
            self.match_Other(token);
            return Ok(());
        }
        if self.match_Empty(token) {
            return Ok(());
        }
        match self.match_Language(token) {
            Ok(true) => {
                return Ok(());
            },
            Ok(false) => {},
            Err(e) => {
                return Err(e);
            },
        }
        if self.match_Comment(token) || self.match_TagLine(token) || self.match_FeatureLine(token)
            || self.match_BackgroundLine(token) || self.match_ScenarioLine(token)
            || self.match_ScenarioOutlineLine(token) || self.match_ExamplesLine(token)
            || self.match_StepLine(token) {
            return Ok(());
        }
        if self.match_DocStringSeparator(token) {
            return Ok(());
        }
        if self.match_TableRow(token) {
            return Ok(());
        }
        self.match_Other(token);
        Ok(())
    }

} // impl TokenMatcher

} // verus!
