//! Keywords by language, and the table of all dialects.
use vstd::prelude::*;
use crate::ast::Location;
use crate::text::same_text;
use crate::{ErrorKind, ParserError};

verus! {

/// The keywords of one language as the keyword resource lists them.
#[derive(Debug, PartialEq)]
pub struct LanguageSettings {
    pub and: Vec<String>,
    pub background: Vec<String>,
    pub but: Vec<String>,
    pub examples: Vec<String>,
    pub feature: Vec<String>,
    pub given: Vec<String>,
    pub scenario: Vec<String>,
    pub scenario_outline: Vec<String>,
    pub then_keywords: Vec<String>,
    pub when: Vec<String>,
    pub name: String,
    pub native: String,
}

/// The step keywords of a language: given, when, then, and, but, in that order.
pub open spec fn step_keywords_of(s: LanguageSettings) -> Seq<Seq<char>> {
    s.given.deep_view() + s.when.deep_view() + s.then_keywords.deep_view() + s.and.deep_view()
        + s.but.deep_view()
}

/// The keywords of one language, ready for matching.
#[derive(Debug, PartialEq)]
pub struct GherkinDialect {
    language: String,
    feature_keywords: Vec<String>,
    background_keywords: Vec<String>,
    scenario_keywords: Vec<String>,
    scenario_outline_keywords: Vec<String>,
    examples_keywords: Vec<String>,
    given_step_keywords: Vec<String>,
    when_step_keywords: Vec<String>,
    then_step_keywords: Vec<String>,
    and_step_keywords: Vec<String>,
    but_step_keywords: Vec<String>,
    step_keywords: Vec<String>,
}

/// Appends copies of the strings of `src` to `dst`.
fn append_copies(dst: &mut Vec<String>, src: &Vec<String>)
    ensures
        final(dst).deep_view() == old(dst).deep_view() + src.deep_view(),
{
    let ghost start = dst.deep_view();
    let mut i: usize = 0;
    while i < src.len()
        invariant
            i <= src.len(),
            dst.deep_view() == start + src.deep_view().subrange(0, i as int),
        decreases src.len() - i,
    {
        let s = src[i].clone();
        let ghost before = dst.deep_view();
        dst.push(s);
        assert(dst.deep_view() == before.push(src.deep_view()[i as int]));
        assert(src.deep_view().subrange(0, i + 1) == src.deep_view().subrange(0, i as int).push(
            src.deep_view()[i as int],
        ));
        i += 1;
    }
    assert(src.deep_view().subrange(0, src.len() as int) == src.deep_view());
}

impl GherkinDialect {
    #[verifier::type_invariant]
    closed spec fn inv(&self) -> bool {
        self.step_keywords.deep_view() == self.given_step_keywords.deep_view()
            + self.when_step_keywords.deep_view() + self.then_step_keywords.deep_view()
            + self.and_step_keywords.deep_view() + self.but_step_keywords.deep_view()
    }

    pub closed spec fn language(&self) -> Seq<char> {
        self.language@
    }

    pub closed spec fn feature(&self) -> Seq<Seq<char>> {
        self.feature_keywords.deep_view()
    }

    pub closed spec fn background(&self) -> Seq<Seq<char>> {
        self.background_keywords.deep_view()
    }

    pub closed spec fn scenario(&self) -> Seq<Seq<char>> {
        self.scenario_keywords.deep_view()
    }

    pub closed spec fn scenario_outline(&self) -> Seq<Seq<char>> {
        self.scenario_outline_keywords.deep_view()
    }

    pub closed spec fn examples(&self) -> Seq<Seq<char>> {
        self.examples_keywords.deep_view()
    }

    pub closed spec fn steps(&self) -> Seq<Seq<char>> {
        self.step_keywords.deep_view()
    }

    /// The dialect holds the keywords of `s` under the name `code`.
    pub open spec fn built_from(&self, code: Seq<char>, s: LanguageSettings) -> bool {
        &&& self.language() == code
        &&& self.feature() == s.feature.deep_view()
        &&& self.background() == s.background.deep_view()
        &&& self.scenario() == s.scenario.deep_view()
        &&& self.scenario_outline() == s.scenario_outline.deep_view()
        &&& self.examples() == s.examples.deep_view()
        &&& self.steps() == step_keywords_of(s)
    }

    pub fn new(language: String, language_setting: LanguageSettings) -> (r: GherkinDialect)
        ensures
            r.built_from(language@, language_setting),
    {
        let ghost s = language_setting;
        let mut step_keywords: Vec<String> = Vec::new();
        append_copies(&mut step_keywords, &language_setting.given);
        append_copies(&mut step_keywords, &language_setting.when);
        append_copies(&mut step_keywords, &language_setting.then_keywords);
        append_copies(&mut step_keywords, &language_setting.and);
        append_copies(&mut step_keywords, &language_setting.but);
        assert(step_keywords.deep_view() == step_keywords_of(s));
        GherkinDialect {
            language,
            feature_keywords: language_setting.feature,
            background_keywords: language_setting.background,
            scenario_keywords: language_setting.scenario,
            scenario_outline_keywords: language_setting.scenario_outline,
            examples_keywords: language_setting.examples,
            given_step_keywords: language_setting.given,
            when_step_keywords: language_setting.when,
            then_step_keywords: language_setting.then_keywords,
            and_step_keywords: language_setting.and,
            but_step_keywords: language_setting.but,
            step_keywords,
        }
    }

    pub fn get_language(&self) -> (r: String)
        ensures
            r@ == self.language(),
    {
        self.language.clone()
    }

    pub fn get_feature_keywords(&self) -> (r: &Vec<String>)
        ensures
            r.deep_view() == self.feature(),
    {
        &self.feature_keywords
    }

    pub fn get_background_keywords(&self) -> (r: &Vec<String>)
        ensures
            r.deep_view() == self.background(),
    {
        &self.background_keywords
    }

    pub fn get_scenario_keywords(&self) -> (r: &Vec<String>)
        ensures
            r.deep_view() == self.scenario(),
    {
        &self.scenario_keywords
    }

    pub fn get_scenario_outline_keywords(&self) -> (r: &Vec<String>)
        ensures
            r.deep_view() == self.scenario_outline(),
    {
        &self.scenario_outline_keywords
    }

    pub fn get_examples_keywords(&self) -> (r: &Vec<String>)
        ensures
            r.deep_view() == self.examples(),
    {
        &self.examples_keywords
    }

    /// The step keywords: given, when, then, and, but, in that order.
    pub fn get_step_keywords(&self) -> (r: &Vec<String>)
        ensures
            r.deep_view() == self.steps(),
    {
        &self.step_keywords
    }
}

/// The keyword resource as it was found: missing (with where it was looked
/// for), not decodable (with the decoder's message), or decoded into the
/// keywords of each language code.
pub enum KeywordResource {
    Missing(String),
    Malformed(String),
    Decoded(Vec<(String, LanguageSettings)>),
}

/// Entry `i` is the last one that names its language code.
pub open spec fn is_last_for_code(entries: Seq<(String, LanguageSettings)>, i: int) -> bool {
    forall|j: int| i < j < entries.len() ==> (#[trigger] entries[j]).0@ != entries[i].0@
}

/// `d` was built from an entry that is the last one for its code.
pub open spec fn built_from_last(d: GherkinDialect, entries: Seq<(String, LanguageSettings)>) -> bool {
    exists|i: int|
        0 <= i < entries.len() && is_last_for_code(entries, i) && #[trigger] d.built_from(
            entries[i].0@,
            entries[i].1,
        )
}

/// The dialects of all known languages, one per language code, and the code
/// of the default one. The dialects are kept in a `Vec` whose languages are
/// unique, rather than a `HashMap` keyed by code: vstd's specification of
/// `HashMap` lets a proof follow lookups only for keys whose hashing and
/// equality it models, which a `String` key is not, so no lookup result could
/// be proved.
pub struct GherkinDialectProvider {
    default: String,
    dialects: Vec<GherkinDialect>,
}

impl GherkinDialectProvider {
    #[verifier::type_invariant]
    closed spec fn inv(&self) -> bool {
        forall|i: int, j: int|
            0 <= i < j < self.dialects@.len() ==> (#[trigger] self.dialects@[i]).language()
                != (#[trigger] self.dialects@[j]).language()
    }

    pub closed spec fn default_code(&self) -> Seq<char> {
        self.default@
    }

    pub closed spec fn table(&self) -> Seq<GherkinDialect> {
        self.dialects@
    }

    pub open spec fn has_language(&self, code: Seq<char>) -> bool {
        exists|i: int| 0 <= i < self.table().len() && (#[trigger] self.table()[i]).language() == code
    }

    /// The dialect of `code`, where there is one.
    pub open spec fn dialect_for(&self, code: Seq<char>) -> GherkinDialect {
        self.table()[choose|i: int|
            0 <= i < self.table().len() && (#[trigger] self.table()[i]).language() == code]
    }

    /// Builds the table from the keyword resource; `default` names the
    /// language that `get_default` gives. Where a code comes more than once,
    /// its last entry counts.
    pub fn new_with_default(default: &str, resource: KeywordResource) -> (r: Result<
        GherkinDialectProvider,
        ParserError<'static>,
    >)
        ensures
            match resource {
                KeywordResource::Missing(path) => r matches Err(e) && e.kind == ErrorKind::ResourceNotFound(path)
                    && e.location == (Location { line: 1, column: 1 }),
                KeywordResource::Malformed(detail) => r matches Err(e) && e.kind
                    == ErrorKind::MalformedResource(detail) && e.location == (Location {
                    line: 1,
                    column: 1,
                }),
                KeywordResource::Decoded(entries) => r matches Ok(p) && p.default_code() == default@
                    && (forall|code: Seq<char>|
                    p.has_language(code) <==> exists|i: int|
                        0 <= i < entries@.len() && (#[trigger] entries@[i]).0@ == code) && (forall|
                    i: int,
                |
                    0 <= i < entries@.len() && is_last_for_code(entries@, i) ==> p.dialect_for(
                        (#[trigger] entries@[i]).0@,
                    ).built_from(entries@[i].0@, entries@[i].1)),
            },
    {
        match resource {
            KeywordResource::Missing(path) => Err(
                ParserError::new(ErrorKind::ResourceNotFound(path), Location::new(1, 1)),
            ),
            KeywordResource::Malformed(detail) => Err(
                ParserError::new(ErrorKind::MalformedResource(detail), Location::new(1, 1)),
            ),
            KeywordResource::Decoded(entries) => Ok(
                GherkinDialectProvider::from_entries(default, entries),
            ),
        }
    }

    /// The table with English as the default language.
    pub fn new(resource: KeywordResource) -> (r: Result<GherkinDialectProvider, ParserError<'static>>)
        ensures
            match resource {
                KeywordResource::Missing(path) => r matches Err(e) && e.kind == ErrorKind::ResourceNotFound(path)
                    && e.location == (Location { line: 1, column: 1 }),
                KeywordResource::Malformed(detail) => r matches Err(e) && e.kind
                    == ErrorKind::MalformedResource(detail) && e.location == (Location {
                    line: 1,
                    column: 1,
                }),
                KeywordResource::Decoded(entries) => r matches Ok(p) && p.default_code() == seq!['e', 'n']
                    && (forall|code: Seq<char>|
                    p.has_language(code) <==> exists|i: int|
                        0 <= i < entries@.len() && (#[trigger] entries@[i]).0@ == code) && (forall|
                    i: int,
                |
                    0 <= i < entries@.len() && is_last_for_code(entries@, i) ==> p.dialect_for(
                        (#[trigger] entries@[i]).0@,
                    ).built_from(entries@[i].0@, entries@[i].1)),
            },
    {
        proof {
            reveal_strlit("en");
        }
        GherkinDialectProvider::new_with_default("en", resource)
    }

    fn from_entries(default: &str, entries: Vec<(String, LanguageSettings)>) -> (p:
        GherkinDialectProvider)
        ensures
            p.default_code() == default@,
            forall|code: Seq<char>|
                p.has_language(code) <==> exists|i: int|
                    0 <= i < entries@.len() && (#[trigger] entries@[i]).0@ == code,
            forall|i: int|
                0 <= i < entries@.len() && is_last_for_code(entries@, i) ==> p.dialect_for(
                    (#[trigger] entries@[i]).0@,
                ).built_from(entries@[i].0@, entries@[i].1),
    {
        let ghost all = entries@;
        let mut rest = entries;
        let mut dialects: Vec<GherkinDialect> = Vec::new();
        // for each entry already taken, the dialect that holds its code
        let ghost mut pos: Seq<int> = Seq::new(all.len(), |i: int| 0);
        // Entries are taken from the back, so the first one seen for a code
        // is its last entry.
        while rest.len() > 0
            invariant
                rest@.len() <= all.len(),
                rest@ == all.subrange(0, rest@.len() as int),
                pos.len() == all.len(),
                forall|a: int, b: int|
                    0 <= a < b < dialects@.len() ==> (#[trigger] dialects@[a]).language()
                        != (#[trigger] dialects@[b]).language(),
                forall|a: int|
                    0 <= a < dialects@.len() ==> #[trigger] built_from_last(dialects@[a], all),
                forall|i: int|
                    #![trigger pos[i]]
                    rest@.len() <= i < all.len() ==> {
                        &&& 0 <= pos[i] < dialects@.len()
                        &&& dialects@[pos[i]].language() == all[i].0@
                    },
            decreases rest.len(),
        {
            let ghost n = rest@.len() - 1;
            let ghost before = dialects@;
            let entry = rest.pop().unwrap();
            assert(rest@ =~= all.subrange(0, rest@.len() as int));
            assert(entry == all[n]);
            let (code, settings) = entry;
            let mut found: Option<usize> = None;
            let mut k: usize = 0;
            while k < dialects.len()
                invariant
                    k <= dialects@.len(),
                    found is None ==> forall|a: int|
                        0 <= a < k ==> (#[trigger] dialects@[a]).language() != code@,
                    found matches Some(f) ==> f < dialects@.len() && dialects@[f as int].language()
                        == code@,
                decreases dialects.len() - k,
            {
                if dialects[k].language == code {
                    found = Some(k);
                }
                k += 1;
            }
            if found.is_none() {
                proof {
                    assert forall|j: int| n < j < all.len() implies (#[trigger] all[j]).0@
                        != all[n].0@ by {
                        assert(dialects@[pos[j]].language() == all[j].0@);
                    }
                }
                let d = GherkinDialect::new(code, settings);
                dialects.push(d);
                proof {
                    assert(dialects@[before.len() as int].built_from(all[n].0@, all[n].1));
                    assert(built_from_last(dialects@[before.len() as int], all));
                    assert forall|a: int| 0 <= a < before.len() implies dialects@[a] == before[a] by {}
                }
            }
            proof {
                if found is None {
                    pos = pos.update(n, before.len() as int);
                } else {
                    pos = pos.update(n, found->0 as int);
                }
            }
        }
        let p = GherkinDialectProvider { default: default.to_string(), dialects };
        proof {
            assert forall|code: Seq<char>| p.has_language(code) implies exists|i: int|
                0 <= i < all.len() && (#[trigger] all[i]).0@ == code by {
                let a = choose|a: int|
                    0 <= a < p.table().len() && (#[trigger] p.table()[a]).language() == code;
                assert(built_from_last(p.table()[a], all));
                let o = choose|o: int|
                    0 <= o < all.len() && is_last_for_code(all, o) && (#[trigger] p.table()[a].built_from(all[o].0@, all[o].1));
                assert(all[o].0@ == code);
            }
            assert forall|code: Seq<char>|
                (exists|i: int| 0 <= i < all.len() && (#[trigger] all[i]).0@ == code) implies p.has_language(
                code,
            ) by {
                let i = choose|i: int| 0 <= i < all.len() && (#[trigger] all[i]).0@ == code;
                assert(p.table()[pos[i]].language() == code);
            }
            assert forall|i: int|
                0 <= i < all.len() && is_last_for_code(all, i) implies p.dialect_for(
                (#[trigger] all[i]).0@,
            ).built_from(all[i].0@, all[i].1) by {
                let c = all[i].0@;
                assert(p.table()[pos[i]].language() == c);
                let a = choose|a: int|
                    0 <= a < p.table().len() && (#[trigger] p.table()[a]).language() == c;
                assert(a == pos[i]);
                assert(built_from_last(p.table()[a], all));
                let o = choose|o: int|
                    0 <= o < all.len() && is_last_for_code(all, o) && (#[trigger] p.table()[a].built_from(all[o].0@, all[o].1));
                if o < i {
                    assert(all[i].0@ != all[o].0@);
                } else if o > i {
                    assert(all[o].0@ != all[i].0@);
                }
            }
        }
        p
    }

    /// The dialect of `language`; fails with `NoSuchLanguage` at `location`
    /// where there is none.
    pub fn get_dialect<'a>(&'a self, language: &str, location: Location) -> (r: Result<
        &'a GherkinDialect,
        ParserError<'static>,
    >)
        ensures
            match r {
                Ok(d) => self.has_language(language@) && *d == self.dialect_for(language@),
                Err(e) => !self.has_language(language@) && e.location == location && (e.kind
                    matches ErrorKind::NoSuchLanguage(l) && l@ == language@),
            },
    {
        proof {
            use_type_invariant(self);
        }
        let mut k: usize = 0;
        while k < self.dialects.len()
            invariant
                k <= self.dialects@.len(),
                forall|a: int| 0 <= a < k ==> (#[trigger] self.dialects@[a]).language() != language@,
            decreases self.dialects.len() - k,
        {
            if same_text(self.dialects[k].language.as_str(), language) {
                proof {
                    use_type_invariant(self);
                    assert(self.table()[k as int].language() == language@);
                    let c = choose|a: int|
                        0 <= a < self.table().len() && (#[trigger] self.table()[a]).language()
                            == language@;
                    if c < k {
                        assert(self.dialects@[c].language() != self.dialects@[k as int].language());
                    } else if c > k {
                        assert(self.dialects@[k as int].language() != self.dialects@[c].language());
                    }
                }
                return Ok(&self.dialects[k]);
            }
            k += 1;
        }
        Err(ParserError::new(ErrorKind::NoSuchLanguage(language.to_string()), location))
    }

    /// The dialect of the default language.
    pub fn get_default<'a>(&'a self, location: Location) -> (r: Result<
        &'a GherkinDialect,
        ParserError<'static>,
    >)
        ensures
            match r {
                Ok(d) => self.has_language(self.default_code()) && *d == self.dialect_for(
                    self.default_code(),
                ),
                Err(e) => !self.has_language(self.default_code()) && e.location == location
                    && (e.kind matches ErrorKind::NoSuchLanguage(l) && l@ == self.default_code()),
            },
    {
        self.get_dialect(self.default.as_str(), location)
    }
}

} // verus!
