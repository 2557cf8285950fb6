use gherkin::ast::{Argument, Location, ScenarioDefinition};
use gherkin::gherkin_dialect::{GherkinDialectProvider, KeywordResource, LanguageSettings};
use gherkin::parser::{parse, transition, ParserState, Transition, TokenType};
use gherkin::ErrorKind;

fn words(list: &[&str]) -> Vec<String> {
    list.iter().map(|s| s.to_string()).collect()
}

fn english() -> LanguageSettings {
    LanguageSettings {
        and: words(&["* ", "And "]),
        background: words(&["Background"]),
        but: words(&["* ", "But "]),
        examples: words(&["Examples", "Scenarios"]),
        feature: words(&["Feature", "Business Need", "Ability"]),
        given: words(&["* ", "Given "]),
        scenario: words(&["Scenario"]),
        scenario_outline: words(&["Scenario Outline", "Scenario Template"]),
        then_keywords: words(&["* ", "Then "]),
        when: words(&["* ", "When "]),
        name: "English".to_string(),
        native: "English".to_string(),
    }
}

fn afrikaans() -> LanguageSettings {
    LanguageSettings {
        and: words(&["* ", "En "]),
        background: words(&["Agtergrond"]),
        but: words(&["* ", "Maar "]),
        examples: words(&["Voorbeelde"]),
        feature: words(&["Funksie", "Besigheid Behoefte", "Vermoë"]),
        given: words(&["* ", "Gegewe "]),
        scenario: words(&["Situasie"]),
        scenario_outline: words(&["Situasie Uiteensetting"]),
        then_keywords: words(&["* ", "Dan "]),
        when: words(&["* ", "Wanneer "]),
        name: "Afrikaans".to_string(),
        native: "Afrikaans".to_string(),
    }
}

fn provider() -> GherkinDialectProvider {
    let entries = vec![("en".to_string(), english()), ("af".to_string(), afrikaans())];
    GherkinDialectProvider::new(KeywordResource::Decoded(entries)).unwrap()
}

fn lines_of(text: &str) -> Vec<String> {
    text.lines().map(|l| l.to_string()).collect()
}

const DOCUMENT: &str = "@web @slow
Feature: Sign in
  As a user
  I want to sign in

  Background:
    Given a browser

  # first one
  Scenario: Good password
    Given the password \"x\"
      \"\"\"text
      a line
      \"\"\"
    When I sign in
      | name | age |
      | ann  | 3   |
    Then I am in

  @outline
  Scenario Outline: Many
    Given <n>

    Examples: first
      | n |
      | 1 |
      | 2 |
";

#[test]
fn valid_document_gives_feature() {
    let provider = provider();
    let feature = parse(&provider, lines_of(DOCUMENT)).unwrap();
    assert_eq!(feature.get_keyword(), "Feature");
    assert_eq!(feature.get_name(), "Sign in");
    assert_eq!(feature.get_description(), "  As a user\n  I want to sign in");
    assert_eq!(feature.get_location(), &Location::new(2, 1));
    assert_eq!(feature.get_language(), "en");
    assert_eq!(feature.get_tags().len(), 2);
    assert_eq!(feature.get_tags()[1].get_name(), "@slow");
    assert_eq!(feature.get_tags()[1].get_location(), &Location::new(1, 6));
    assert_eq!(feature.get_comments().len(), 1);
    assert_eq!(feature.get_comments()[0].get_text(), "  # first one");
    let children = feature.get_children();
    assert_eq!(children.len(), 3);
    match &children[0] {
        ScenarioDefinition::Background(b) => {
            assert_eq!(b.get_keyword(), "Background");
            assert_eq!(b.get_steps().len(), 1);
            assert_eq!(b.get_steps()[0].get_text(), "a browser");
        },
        _ => panic!("background expected"),
    }
    match &children[1] {
        ScenarioDefinition::Scenario(s) => {
            assert_eq!(s.get_name(), "Good password");
            let steps = s.get_steps();
            assert_eq!(steps.len(), 3);
            match steps[0].get_argument() {
                Some(Argument::DocString(d)) => {
                    assert_eq!(d.get_content_type(), "text");
                    assert_eq!(d.get_content(), "a line");
                    assert_eq!(d.get_location(), &Location::new(12, 7));
                },
                _ => panic!("doc string expected"),
            }
            match steps[1].get_argument() {
                Some(Argument::DataTable(t)) => {
                    assert_eq!(t.get_rows().len(), 2);
                    assert_eq!(t.get_rows()[1].get_cells()[0].get_value(), "ann");
                    assert_eq!(t.get_rows()[1].get_cells()[1].get_location(), &Location::new(17, 16));
                },
                _ => panic!("data table expected"),
            }
            assert!(steps[2].get_argument().is_none());
            assert_eq!(steps[2].get_keyword(), "Then ");
        },
        _ => panic!("scenario expected"),
    }
    match &children[2] {
        ScenarioDefinition::ScenarioOutline(o) => {
            assert_eq!(o.get_name(), "Many");
            assert_eq!(o.tags.len(), 1);
            assert_eq!(o.tags[0].get_name(), "@outline");
            assert_eq!(o.tags[0].get_location(), &Location::new(20, 3));
            let examples = o.get_examples();
            assert_eq!(examples.len(), 1);
            assert_eq!(examples[0].get_name(), "first");
            assert_eq!(examples[0].get_table_header().get_cells()[0].get_value(), "n");
            assert_eq!(examples[0].get_table_body().len(), 2);
        },
        _ => panic!("outline expected"),
    }
}

#[test]
fn feature_description_stops_at_first_keyword() {
    let provider = provider();
    let feature = parse(&provider, lines_of("Feature: F\n  one\n\n  # note\n  two\nScenario: S\n  three\n")).unwrap();
    assert_eq!(feature.get_description(), "  one\n  two");
}

#[test]
fn language_directive_switches_dialect() {
    let provider = provider();
    let feature = parse(&provider, lines_of("# language: af\nFunksie: F\n  Situasie: S\n    Gegewe x\n")).unwrap();
    assert_eq!(feature.get_language(), "af");
    assert_eq!(feature.get_keyword(), "Funksie");
    match &feature.get_children()[0] {
        ScenarioDefinition::Scenario(s) => assert_eq!(s.get_keyword(), "Situasie"),
        _ => panic!("scenario expected"),
    }
}

#[test]
fn unknown_language_directive_fails() {
    let provider = provider();
    let error = parse(&provider, lines_of("# language: xx\nFeature: F\n")).unwrap_err();
    assert!(matches!(error.kind, ErrorKind::NoSuchLanguage(ref l) if l == "xx"));
}

#[test]
fn empty_document_is_unexpected_eof() {
    let provider = provider();
    let error = parse(&provider, vec![]).unwrap_err();
    assert_eq!(error.location, Location::new(1, 1));
    assert!(matches!(error.kind, ErrorKind::UnexpectedEOF(_, _, _)));
}

#[test]
fn one_bad_line_is_one_error() {
    let provider = provider();
    let error = parse(&provider, lines_of("Feature: F\n  Scenario: S\n    Given x\n  | a |\n  | a | b |\n")).unwrap_err();
    assert_eq!(error.location, Location::new(5, 3));
    assert!(matches!(error.kind, ErrorKind::AstBuilder(_)));
    assert_eq!(error.kind.descripton(), "inconsistent cell count within the table");
}

#[test]
fn several_bad_lines_are_a_composite() {
    let provider = provider();
    let error = parse(&provider, lines_of("Given x\nFeature: F\nExamples:\n")).unwrap_err();
    match error.kind {
        ErrorKind::CompositeError(errors) => {
            assert_eq!(errors.len(), 2);
            assert_eq!(errors[0].location, Location::new(1, 1));
            assert!(matches!(errors[0].kind, ErrorKind::UnexpectedToken(_, _, _)));
            assert_eq!(errors[1].location, Location::new(3, 1));
        },
        _ => panic!("composite expected"),
    }
    assert_eq!(error.location, Location::new(1, 1));
}

#[test]
fn outline_without_examples_fails_at_end() {
    let provider = provider();
    let error = parse(&provider, lines_of("Feature: F\nScenario Outline: O\n  Given <x>\n")).unwrap_err();
    assert!(matches!(error.kind, ErrorKind::UnexpectedEOF(_, _, _)));
    assert_eq!(error.location, Location::new(4, 1));
}

#[test]
fn missing_default_language_fails() {
    let entries = vec![("af".to_string(), afrikaans())];
    let provider = GherkinDialectProvider::new(KeywordResource::Decoded(entries)).unwrap();
    let error = parse(&provider, lines_of("Feature: F\n")).unwrap_err();
    assert!(matches!(error.kind, ErrorKind::NoSuchLanguage(ref l) if l == "en"));
}

#[test]
fn grammar_steps() {
    assert_eq!(transition(ParserState::Start, TokenType::FeatureLine, 0), Transition::To(ParserState::FeatureDescription));
    assert_eq!(transition(ParserState::Start, TokenType::EOF, 0), Transition::Unexpected);
    assert_eq!(transition(ParserState::ExamplesRows(2), TokenType::TableRow, 3), Transition::Ragged);
    assert_eq!(transition(ParserState::ExamplesRows(2), TokenType::TableRow, 2), Transition::To(ParserState::ExamplesRows(2)));
    assert_eq!(transition(ParserState::DocString(gherkin::parser::Block::Scenario), TokenType::Comment, 0), Transition::Unexpected);
    assert_eq!(transition(ParserState::Steps(gherkin::parser::Block::Outline), TokenType::EOF, 0), Transition::Unexpected);
}

#[test]
fn scenario_takes_tags_right_before_it() {
    let provider = provider();
    let feature = parse(&provider, lines_of("@f\nFeature: F\n  @a\n\n  @b @c\n  Scenario: S\n    Given x\n  Scenario: T\n")).unwrap();
    assert_eq!(feature.get_tags().len(), 1);
    match &feature.get_children()[0] {
        ScenarioDefinition::Scenario(s) => {
            let names: Vec<&str> = s.get_tags().iter().map(|t| t.get_name()).collect();
            assert_eq!(names, vec!["@a", "@b", "@c"]);
            assert_eq!(s.get_tags()[2].get_location(), &Location::new(5, 6));
        },
        _ => panic!("scenario expected"),
    }
    match &feature.get_children()[1] {
        ScenarioDefinition::Scenario(s) => assert!(s.get_tags().is_empty()),
        _ => panic!("scenario expected"),
    }
}

#[test]
fn comments_and_later_directives_are_kept() {
    let provider = provider();
    let feature = parse(&provider, lines_of("# top\n# language: en\nFeature: F\n  # language: en\n  Scenario: S\n")).unwrap();
    let comments = feature.get_comments();
    assert_eq!(comments.len(), 2);
    assert_eq!(comments[0].get_text(), "# top");
    assert_eq!(comments[0].get_location(), &Location::new(1, 1));
    assert_eq!(comments[1].get_text(), "  # language: en");
    assert_eq!(comments[1].get_location(), &Location::new(4, 1));
}

#[test]
fn scenario_description_is_kept() {
    let provider = provider();
    let feature = parse(&provider, lines_of("Feature: F\n  Scenario: S\n    first\n\n    second\n    Given x\n")).unwrap();
    match &feature.get_children()[0] {
        ScenarioDefinition::Scenario(s) => assert_eq!(s.get_description(), "    first\n    second"),
        _ => panic!("scenario expected"),
    }
}

#[test]
fn doc_string_may_not_be_followed_by_a_table() {
    let provider = provider();
    let error = parse(&provider, lines_of("Feature: F\n  Scenario: S\n    Given x\n      \"\"\"\n      a\n      \"\"\"\n      | a |\n")).unwrap_err();
    assert!(matches!(error.kind, ErrorKind::UnexpectedToken(_, _, _)));
    assert_eq!(error.location, Location::new(7, 7));
}

#[test]
fn table_rows_may_have_blank_lines_between() {
    let provider = provider();
    let feature = parse(&provider, lines_of("Feature: F\n  Scenario: S\n    Given x\n      | a |\n\n      | b |\n    Then y\n")).unwrap();
    match &feature.get_children()[0] {
        ScenarioDefinition::Scenario(s) => match s.get_steps()[0].get_argument() {
            Some(Argument::DataTable(t)) => {
                assert_eq!(t.get_rows().len(), 2);
                assert_eq!(t.get_rows()[1].get_location(), &Location::new(6, 7));
            },
            _ => panic!("table expected"),
        },
        _ => panic!("scenario expected"),
    }
}

#[test]
fn examples_keep_tags_description_and_rows() {
    let provider = provider();
    let text = "Feature: F\n  Scenario Outline: O\n    Given <a>\n  @x\n  Examples: E\n    about them\n    | a |\n    | 1 |\n  @y\n  Examples:\n    | a |\n";
    let feature = parse(&provider, lines_of(text)).unwrap();
    match &feature.get_children()[0] {
        ScenarioDefinition::ScenarioOutline(o) => {
            let examples = o.get_examples();
            assert_eq!(examples.len(), 2);
            assert_eq!(examples[0].tags[0].get_name(), "@x");
            assert_eq!(examples[0].get_description(), "    about them");
            assert_eq!(examples[0].get_table_header().get_location(), &Location::new(7, 5));
            assert_eq!(examples[0].get_table_body()[0].get_cells()[0].get_value(), "1");
            assert_eq!(examples[1].tags[0].get_name(), "@y");
            assert!(examples[1].get_table_body().is_empty());
        },
        _ => panic!("outline expected"),
    }
}

#[test]
fn messages_list_expected_tokens_in_debug_form() {
    let provider = provider();
    let error = parse(&provider, vec![]).unwrap_err();
    assert_eq!(error.kind.descripton(), "Unexpected EOF.  Expected one of: [\"#TagLine\", \"#FeatureLine\"]");
    let error = parse(&provider, lines_of("Given x\nFeature: F\n")).unwrap_err();
    assert_eq!(error.kind.descripton(), "Unexpected token: StepLine: Given x.  Expected one of: [\"#TagLine\", \"#FeatureLine\"]");
}

#[test]
fn composite_message_lists_its_errors() {
    let provider = provider();
    let error = parse(&provider, lines_of("Given x\nFeature: F\nExamples:\n")).unwrap_err();
    let text = error.kind.descripton();
    assert!(text.starts_with("[Unexpected token: StepLine: Given x."));
    assert!(text.contains("], Unexpected token: ExamplesLine: "));
    assert!(text.ends_with("]"));
    assert_eq!(ErrorKind::CompositeError(vec![]).descripton(), "[]");
}
