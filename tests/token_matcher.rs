use gherkin::ast::Location;
use gherkin::gherkin_dialect::{GherkinDialect, GherkinDialectProvider, KeywordResource, LanguageSettings};
use gherkin::gherkin_line_span::GherkinLineSpan;
use gherkin::parser::TokenType;
use gherkin::token::Token;
use gherkin::token_matcher::TokenMatcher;
use gherkin::token_scanner::TokenScanner;

fn words(list: &[&str]) -> Vec<String> {
    list.iter().map(|s| s.to_string()).collect()
}

fn english() -> LanguageSettings {
    LanguageSettings {
        and: words(&["* ", "And "]),
        background: words(&["Background"]),
        but: words(&["* ", "But "]),
        examples: words(&["Examples", "Scenarios"]),
        feature: words(&["Feature", "Business Need", "Ability"]),
        given: words(&["* ", "Given "]),
        scenario: words(&["Scenario"]),
        scenario_outline: words(&["Scenario Outline", "Scenario Template"]),
        then_keywords: words(&["* ", "Then "]),
        when: words(&["* ", "When "]),
        name: "English".to_string(),
        native: "English".to_string(),
    }
}

fn afrikaans() -> LanguageSettings {
    LanguageSettings {
        and: words(&["* ", "En "]),
        background: words(&["Agtergrond"]),
        but: words(&["* ", "Maar "]),
        examples: words(&["Voorbeelde"]),
        feature: words(&["Funksie", "Besigheid Behoefte", "Vermoë"]),
        given: words(&["* ", "Gegewe "]),
        scenario: words(&["Situasie"]),
        scenario_outline: words(&["Situasie Uiteensetting"]),
        then_keywords: words(&["* ", "Dan "]),
        when: words(&["* ", "Wanneer "]),
        name: "Afrikaans".to_string(),
        native: "Afrikaans".to_string(),
    }
}

fn provider() -> GherkinDialectProvider {
    let entries = vec![("en".to_string(), english()), ("af".to_string(), afrikaans())];
    GherkinDialectProvider::new(KeywordResource::Decoded(entries)).unwrap()
}

fn call<'a>(matcher: &mut TokenMatcher<'a>, token: &mut Token<'a>, kind: TokenType) -> bool {
    match kind {
        TokenType::EOF => matcher.match_EOF(token),
        TokenType::Empty => matcher.match_Empty(token),
        TokenType::Comment => matcher.match_Comment(token),
        TokenType::TagLine => matcher.match_TagLine(token),
        TokenType::FeatureLine => matcher.match_FeatureLine(token),
        TokenType::BackgroundLine => matcher.match_BackgroundLine(token),
        TokenType::ScenarioLine => matcher.match_ScenarioLine(token),
        TokenType::ScenarioOutlineLine => matcher.match_ScenarioOutlineLine(token),
        TokenType::ExamplesLine => matcher.match_ExamplesLine(token),
        TokenType::StepLine => matcher.match_StepLine(token),
        TokenType::DocStringSeparator => matcher.match_DocStringSeparator(token),
        TokenType::TableRow => matcher.match_TableRow(token),
        TokenType::Language => matcher.match_Language(token).unwrap(),
        TokenType::Other => matcher.match_Other(token),
        TokenType::Initial => false,
    }
}

fn check_and_call<'a>(
    kind: TokenType,
    expected_type: TokenType,
    token: &mut Token<'a>,
    matcher: &mut TokenMatcher<'a>,
    expected_text: Option<&str>,
    expected_items: &Option<Vec<GherkinLineSpan>>,
    expected_dialect: &GherkinDialect,
    expected_indent: usize,
    expected_location: Location,
) -> bool {
    if kind == expected_type {
        assert!(call(matcher, token, kind));
        assert_eq!(token.matched_type, expected_type);
        assert_eq!(token.matched_text, expected_text.map(|s| s.to_string()));
        assert_eq!(&token.matched_items, expected_items);
        assert_eq!(token.matched_gherkin_dialect, expected_dialect);
        assert_eq!(token.matched_indent, expected_indent);
        assert_eq!(token.location, expected_location);
        true
    } else {
        assert!(!call(matcher, token, kind));
        false
    }
}

fn check_token<'a>(
    scanner: &mut TokenScanner<'a>,
    matcher: &mut TokenMatcher<'a>,
    expected_type: TokenType,
    expected_text: Option<&str>,
    expected_items: Option<Vec<GherkinLineSpan>>,
    expected_dialect: &GherkinDialect,
    expected_indent: usize,
    expected_location: Location,
) -> Token<'a> {
    let mut token = scanner.read();
    let mut has_matched = false;
    let kinds = [
        TokenType::EOF,
        TokenType::Empty,
        TokenType::TagLine,
        TokenType::FeatureLine,
        TokenType::BackgroundLine,
        TokenType::ScenarioLine,
        TokenType::ScenarioOutlineLine,
        TokenType::ExamplesLine,
        TokenType::StepLine,
        TokenType::DocStringSeparator,
        TokenType::TableRow,
    ];
    for kind in kinds.iter() {
        has_matched |= check_and_call(*kind, expected_type, &mut token, matcher, expected_text, &expected_items, expected_dialect, expected_indent, expected_location);
    }
    let matched_language = check_and_call(TokenType::Language, expected_type, &mut token, matcher, expected_text, &expected_items, expected_dialect, expected_indent, expected_location);
    has_matched |= matched_language;
    // A language line looks just like a comment line, so it would match as a comment too
    if !matched_language {
        has_matched |= check_and_call(TokenType::Comment, expected_type, &mut token, matcher, expected_text, &expected_items, expected_dialect, expected_indent, expected_location);
    }
    if !has_matched {
        assert!(check_and_call(TokenType::Other, expected_type, &mut token, matcher, expected_text, &expected_items, expected_dialect, expected_indent, expected_location));
    }
    token
}

#[test]
fn matching_file() {
    let test_file = r"
        Feature: An example
            This should just be a random line
            ```xml
            <doc>A doc string</doc>
            ```

        Background:
            When testing a token scanner

        # A normal scenario
        Scenario Outline: An example outline
            Given something <yeah>
            When something else <oh yeah>
            Then a thing <thing>

        Examples:
            | yeah | oh yeah | thing |
            |67    | 78      |3      |

        # language: af
        Situasie: An Afrikaans scenario
            Gegewe We've learned a new language
            En     We're describing stuff
            *      Like this
            Maar   We're oddly bilingual
        ";
    let provider = provider();
    let lines: Vec<String> = test_file.lines().map(|l| l.to_string()).collect();
    let mut scanner = TokenScanner::new(lines, &provider);
    let mut matcher = TokenMatcher::new(&provider);
    let dialect = provider.get_default(Location::new(1, 0)).unwrap();
    let af_dialect = provider.get_dialect("af", Location::new(1, 0)).unwrap();
    check_token(&mut scanner, &mut matcher, TokenType::Empty, None, None, dialect, 0, Location::new(1, 1));
    check_token(&mut scanner, &mut matcher, TokenType::FeatureLine, Some("An example"), None, dialect, 8, Location::new(2, 9));
    // Descriptive lines after a feature declaration don't have their indents removed.
    check_token(&mut scanner, &mut matcher, TokenType::Other, Some("            This should just be a random line"), None, dialect, 12, Location::new(3, 13));
    check_token(&mut scanner, &mut matcher, TokenType::DocStringSeparator, Some("xml"), None, dialect, 12, Location::new(4, 13));
    check_token(&mut scanner, &mut matcher, TokenType::Other, Some("<doc>A doc string</doc>"), None, dialect, 12, Location::new(5, 13));
    check_token(&mut scanner, &mut matcher, TokenType::DocStringSeparator, None, None, dialect, 12, Location::new(6, 13));
    check_token(&mut scanner, &mut matcher, TokenType::Empty, None, None, dialect, 0, Location::new(7, 1));
    check_token(&mut scanner, &mut matcher, TokenType::BackgroundLine, Some(""), None, dialect, 8, Location::new(8, 9));
    check_token(&mut scanner, &mut matcher, TokenType::StepLine, Some("testing a token scanner"), None, dialect, 12, Location::new(9, 13));
    check_token(&mut scanner, &mut matcher, TokenType::Empty, None, None, dialect, 0, Location::new(10, 1));
    // Comments are also taken in their entirety, instead of just the part after the marker
    check_token(&mut scanner, &mut matcher, TokenType::Comment, Some("        # A normal scenario"), None, dialect, 0, Location::new(11, 1));
    check_token(&mut scanner, &mut matcher, TokenType::ScenarioOutlineLine, Some("An example outline"), None, dialect, 8, Location::new(12, 9));
    check_token(&mut scanner, &mut matcher, TokenType::StepLine, Some("something <yeah>"), None, dialect, 12, Location::new(13, 13));
    check_token(&mut scanner, &mut matcher, TokenType::StepLine, Some("something else <oh yeah>"), None, dialect, 12, Location::new(14, 13));
    check_token(&mut scanner, &mut matcher, TokenType::StepLine, Some("a thing <thing>"), None, dialect, 12, Location::new(15, 13));
    check_token(&mut scanner, &mut matcher, TokenType::Empty, None, None, dialect, 0, Location::new(16, 1));
    check_token(&mut scanner, &mut matcher, TokenType::ExamplesLine, Some(""), None, dialect, 8, Location::new(17, 9));
    check_token(&mut scanner, &mut matcher, TokenType::TableRow, None, Some(vec![
        GherkinLineSpan::new(15, "yeah".to_string()),
        GherkinLineSpan::new(22, "oh yeah".to_string()),
        GherkinLineSpan::new(32, "thing".to_string())
    ]), dialect, 12, Location::new(18, 13));
    check_token(&mut scanner, &mut matcher, TokenType::TableRow, None, Some(vec![
        GherkinLineSpan::new(14, "67".to_string()),
        GherkinLineSpan::new(22, "78".to_string()),
        GherkinLineSpan::new(31, "3".to_string())
    ]), dialect, 12, Location::new(19, 13));
    check_token(&mut scanner, &mut matcher, TokenType::Empty, None, None, dialect, 0, Location::new(20, 1));
    check_token(&mut scanner, &mut matcher, TokenType::Language, Some("af"), None, dialect, 8, Location::new(21, 9));
    check_token(&mut scanner, &mut matcher, TokenType::ScenarioLine, Some("An Afrikaans scenario"), None, af_dialect, 8, Location::new(22, 9));
    check_token(&mut scanner, &mut matcher, TokenType::StepLine, Some("We've learned a new language"), None, af_dialect, 12, Location::new(23, 13));
    check_token(&mut scanner, &mut matcher, TokenType::StepLine, Some("We're describing stuff"), None, af_dialect, 12, Location::new(24, 13));
    check_token(&mut scanner, &mut matcher, TokenType::StepLine, Some("Like this"), None, af_dialect, 12, Location::new(25, 13));
    check_token(&mut scanner, &mut matcher, TokenType::StepLine, Some("We're oddly bilingual"), None, af_dialect, 12, Location::new(26, 13));
    check_token(&mut scanner, &mut matcher, TokenType::Empty, None, None, af_dialect, 8, Location::new(27, 9));
    check_token(&mut scanner, &mut matcher, TokenType::EOF, None, None, af_dialect, 0, Location::new(28, 1));
}

fn classify<'a>(provider: &'a GherkinDialectProvider, matcher: &mut TokenMatcher<'a>, text: &str, number: usize) -> Token<'a> {
    let mut scanner = TokenScanner::new(vec![text.to_string()], provider);
    let mut token = scanner.read();
    token.location = Location::new(number, 0);
    matcher.match_token(&mut token).unwrap();
    token
}

#[test]
fn language_line_is_not_a_comment() {
    let provider = provider();
    let mut matcher = TokenMatcher::new(&provider);
    let token = classify(&provider, &mut matcher, "# language: af", 1);
    assert_eq!(token.matched_type, TokenType::Language);
    assert_eq!(token.matched_text, Some("af".to_string()));
    let token = classify(&provider, &mut matcher, "#language:af  ", 2);
    assert_eq!(token.matched_type, TokenType::Language);
    let token = classify(&provider, &mut matcher, "# language: a f", 3);
    assert_eq!(token.matched_type, TokenType::Comment);
}

#[test]
fn dialect_switch_changes_keywords() {
    let provider = provider();
    let mut matcher = TokenMatcher::new(&provider);
    let token = classify(&provider, &mut matcher, "Situasie: x", 1);
    assert_eq!(token.matched_type, TokenType::Other);
    classify(&provider, &mut matcher, "# language: af", 2);
    let token = classify(&provider, &mut matcher, "Situasie: x", 3);
    assert_eq!(token.matched_type, TokenType::ScenarioLine);
    assert_eq!(token.matched_keyword, Some("Situasie".to_string()));
    assert_eq!(token.matched_gherkin_dialect.get_language(), "af");
    let token = classify(&provider, &mut matcher, "Scenario: x", 4);
    assert_eq!(token.matched_type, TokenType::Other);
}

#[test]
fn unknown_language_fails() {
    let provider = provider();
    let mut matcher = TokenMatcher::new(&provider);
    let mut scanner = TokenScanner::new(vec!["  # language: xx".to_string()], &provider);
    let mut token = scanner.read();
    let error = matcher.match_token(&mut token).unwrap_err();
    assert_eq!(error.location, Location::new(1, 3));
    assert_eq!(error.kind.descripton(), "No such language: xx");
    assert_eq!(token.matched_type, TokenType::Initial);
}

#[test]
fn end_of_input_is_eof_at_column_one() {
    let provider = provider();
    let mut matcher = TokenMatcher::new(&provider);
    let mut scanner = TokenScanner::new(vec!["Feature: x".to_string()], &provider);
    scanner.read();
    let mut token = scanner.read();
    matcher.match_token(&mut token).unwrap();
    assert_eq!(token.matched_type, TokenType::EOF);
    assert_eq!(token.matched_indent, 0);
    assert_eq!(token.location, Location::new(2, 1));
}

#[test]
fn doc_string_keeps_step_lines_and_unescapes_fence() {
    let provider = provider();
    let mut matcher = TokenMatcher::new(&provider);
    let open = classify(&provider, &mut matcher, "    \"\"\"json", 1);
    assert_eq!(open.matched_type, TokenType::DocStringSeparator);
    assert_eq!(open.matched_text, Some("json".to_string()));
    let inner = classify(&provider, &mut matcher, "      Given \\\"\\\"\\\" x", 2);
    assert_eq!(inner.matched_type, TokenType::Other);
    assert_eq!(inner.matched_text, Some("  Given \"\"\" x".to_string()));
    let other_fence = classify(&provider, &mut matcher, "    ```", 3);
    assert_eq!(other_fence.matched_type, TokenType::Other);
    let close = classify(&provider, &mut matcher, "    \"\"\"", 4);
    assert_eq!(close.matched_type, TokenType::DocStringSeparator);
    assert_eq!(close.matched_text, None);
    let after = classify(&provider, &mut matcher, "  Given x", 5);
    assert_eq!(after.matched_type, TokenType::StepLine);
    assert_eq!(after.matched_keyword, Some("Given ".to_string()));
}

#[test]
fn first_matching_step_keyword_wins() {
    let provider = provider();
    let mut matcher = TokenMatcher::new(&provider);
    let token = classify(&provider, &mut matcher, "* And more", 1);
    assert_eq!(token.matched_keyword, Some("* ".to_string()));
    assert_eq!(token.matched_text, Some("And more".to_string()));
}

#[test]
fn tag_and_table_lines_carry_items() {
    let provider = provider();
    let mut matcher = TokenMatcher::new(&provider);
    let tags = classify(&provider, &mut matcher, "  @a @b", 1);
    assert_eq!(tags.matched_type, TokenType::TagLine);
    assert_eq!(tags.matched_items, Some(vec![
        GherkinLineSpan::new(3, "@a".to_string()),
        GherkinLineSpan::new(6, "@b".to_string()),
    ]));
    let row = classify(&provider, &mut matcher, "| a |", 2);
    assert_eq!(row.matched_type, TokenType::TableRow);
    assert_eq!(row.matched_items, Some(vec![GherkinLineSpan::new(3, "a".to_string())]));
}
