use gherkin::ast::Location;
use gherkin::gherkin_dialect::{GherkinDialect, GherkinDialectProvider, KeywordResource, LanguageSettings};
use gherkin::ErrorKind;

fn words(list: &[&str]) -> Vec<String> {
    list.iter().map(|s| s.to_string()).collect()
}

fn settings(feature: &str) -> LanguageSettings {
    LanguageSettings {
        and: words(&["* ", "And "]),
        background: words(&["Background"]),
        but: words(&["But "]),
        examples: words(&["Examples"]),
        feature: words(&[feature]),
        given: words(&["Given "]),
        scenario: words(&["Scenario"]),
        scenario_outline: words(&["Scenario Outline"]),
        then_keywords: words(&["Then "]),
        when: words(&["When "]),
        name: "Test".to_string(),
        native: "Test".to_string(),
    }
}

#[test]
fn step_keywords_keep_their_order() {
    let dialect = GherkinDialect::new("xx".to_string(), settings("Feature"));
    assert_eq!(dialect.get_language(), "xx");
    assert_eq!(dialect.get_step_keywords(), &words(&["Given ", "When ", "Then ", "* ", "And ", "But "]));
    assert_eq!(dialect.get_feature_keywords(), &words(&["Feature"]));
}

#[test]
fn unknown_language_is_an_error() {
    let provider = GherkinDialectProvider::new(KeywordResource::Decoded(vec![("en".to_string(), settings("Feature"))])).unwrap();
    let error = provider.get_dialect("es", Location::new(4, 5)).unwrap_err();
    assert_eq!(error.location, Location::new(4, 5));
    assert_eq!(error.kind, ErrorKind::NoSuchLanguage("es".to_string()));
    assert_eq!(provider.get_default(Location::new(1, 1)).unwrap().get_language(), "en");
}

#[test]
fn missing_resource_is_not_found() {
    let error = GherkinDialectProvider::new(KeywordResource::Missing("resources/gherkin-languages.json".to_string())).err().unwrap();
    assert_eq!(error.kind, ErrorKind::ResourceNotFound("resources/gherkin-languages.json".to_string()));
    assert_eq!(error.location, Location::new(1, 1));
    assert_eq!(error.kind.descripton(), "Resource not found: resources/gherkin-languages.json");
}

#[test]
fn malformed_resource_is_reported() {
    let error = GherkinDialectProvider::new(KeywordResource::Malformed("expected value".to_string())).err().unwrap();
    assert_eq!(error.kind, ErrorKind::MalformedResource("expected value".to_string()));
    assert_eq!(error.kind.descripton(), "Malformed resource file: expected value");
}

#[test]
fn last_entry_for_a_code_counts() {
    let entries = vec![
        ("en".to_string(), settings("First")),
        ("ru".to_string(), settings("Other")),
        ("en".to_string(), settings("Second")),
    ];
    let provider = GherkinDialectProvider::new_with_default("ru", KeywordResource::Decoded(entries)).unwrap();
    let en = provider.get_dialect("en", Location::new(1, 1)).unwrap();
    assert_eq!(en.get_feature_keywords(), &words(&["Second"]));
    assert_eq!(provider.get_dialect("ru", Location::new(6, 7)), provider.get_default(Location::new(43, 8)));
}

fn spanish() -> LanguageSettings {
    LanguageSettings {
        and: words(&["* ", "Y ", "E "]),
        background: words(&["Antecedentes"]),
        but: words(&["* ", "Pero "]),
        examples: words(&["Ejemplos"]),
        feature: words(&["Característica"]),
        given: words(&["* ", "Dado ", "Dada ", "Dados ", "Dadas "]),
        scenario: words(&["Escenario"]),
        scenario_outline: words(&["Esquema del escenario"]),
        then_keywords: words(&["* ", "Entonces "]),
        when: words(&["* ", "Cuando "]),
        name: "Spanish".to_string(),
        native: "español".to_string(),
    }
}

fn russian() -> LanguageSettings {
    LanguageSettings {
        and: words(&["* ", "И ", "К тому же "]),
        background: words(&["Предыстория", "Контекст"]),
        but: words(&["* ", "Но ", "А "]),
        examples: words(&["Примеры"]),
        feature: words(&["Функция", "Функционал", "Свойство"]),
        given: words(&["* ", "Допустим ", "Дано ", "Пусть "]),
        scenario: words(&["Сценарий"]),
        scenario_outline: words(&["Структура сценария"]),
        then_keywords: words(&["* ", "То ", "Тогда "]),
        when: words(&["* ", "Если ", "Когда "]),
        name: "Russian".to_string(),
        native: "русский".to_string(),
    }
}

fn resource() -> KeywordResource {
    KeywordResource::Decoded(vec![
        ("en".to_string(), settings("Feature")),
        ("es".to_string(), spanish()),
        ("ru".to_string(), russian()),
    ])
}

#[test]
fn create_dialect() {
    let factory = GherkinDialectProvider::new(resource()).unwrap();
    assert!(factory.get_dialect("es", Location::new(1, 5)).is_ok());

    let factory = GherkinDialectProvider::new_with_default("ru", resource()).unwrap();
    assert_eq!(factory.get_dialect("ru", Location::new(6, 7)), factory.get_default(Location::new(43, 8)))
}
