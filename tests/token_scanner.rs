use gherkin::ast::Location;
use gherkin::gherkin_dialect::{GherkinDialectProvider, KeywordResource, LanguageSettings};
use gherkin::token_scanner::TokenScanner;

fn words(list: &[&str]) -> Vec<String> {
    list.iter().map(|s| s.to_string()).collect()
}

fn provider() -> GherkinDialectProvider {
    let english = LanguageSettings {
        and: words(&["* ", "And "]),
        background: words(&["Background"]),
        but: words(&["* ", "But "]),
        examples: words(&["Examples"]),
        feature: words(&["Feature"]),
        given: words(&["* ", "Given "]),
        scenario: words(&["Scenario"]),
        scenario_outline: words(&["Scenario Outline"]),
        then_keywords: words(&["* ", "Then "]),
        when: words(&["* ", "When "]),
        name: "English".to_string(),
        native: "English".to_string(),
    };
    GherkinDialectProvider::new(KeywordResource::Decoded(vec![("en".to_string(), english)])).unwrap()
}

fn lines_of(text: &str) -> Vec<String> {
    text.lines().map(|l| l.to_string()).collect()
}

#[test]
fn read_lines() {
    let the_lines = "Given this stuff is working\n When I parse this\n  Then I should be happy";
    let provider = provider();
    let mut scanner = TokenScanner::new(lines_of(the_lines), &provider);
    let given_token = scanner.read();
    assert_eq!(given_token.line.as_ref().unwrap().get_rest_trimmed(0), "Given this stuff is working");
    assert_eq!(given_token.location, Location::new(1, 0));
    let when_token = scanner.read();
    assert_eq!(when_token.line.as_ref().unwrap().get_rest_trimmed(0), "When I parse this");
    assert_eq!(when_token.location, Location::new(2, 0));
    let then_token = scanner.read();
    assert_eq!(then_token.line.as_ref().unwrap().get_rest_trimmed(0), "Then I should be happy");
    assert_eq!(then_token.location, Location::new(3, 0));
    let eof_token = scanner.read();
    assert!(eof_token.line.is_none());
    assert_eq!(eof_token.matched_gherkin_dialect.get_language(), "en");
}

#[test]
fn end_of_input_stays_on_the_next_line() {
    let provider = provider();
    let mut scanner = TokenScanner::new(lines_of("a\nb"), &provider);
    scanner.read();
    scanner.read();
    let eof = scanner.read();
    assert!(eof.is_eof());
    assert_eq!(eof.location, Location::new(3, 0));
    let again = scanner.read();
    assert!(again.is_eof());
    assert_eq!(again.location, Location::new(3, 0));
}

#[test]
fn empty_input_is_end_at_line_one() {
    let provider = provider();
    let mut scanner = TokenScanner::new(vec![], &provider);
    let eof = scanner.read();
    assert!(eof.is_eof());
    assert_eq!(eof.location, Location::new(1, 0));
    assert_eq!(eof.get_token_value(), None);
}
