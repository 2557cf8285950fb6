use gherkin::gherkin_line::GherkinLine;
use gherkin::gherkin_line_span::GherkinLineSpan;

#[test]
fn get_tags() {
    let line = GherkinLine::new("@billing @bicker @annoy".to_string(), 1);
    assert_eq!(line.get_tags(), vec![
        GherkinLineSpan::new(1, "@billing".to_string()),
        GherkinLineSpan::new(10, "@bicker".to_string()),
        GherkinLineSpan::new(18, "@annoy".to_string())
    ]);
}

#[test]
fn get_table_cells() {
    let line = GherkinLine::new("   | name   | email            | twitter          |".to_string(), 1);
    assert_eq!(line.get_table_cells(), vec![
        GherkinLineSpan::new(6, "name".to_string()),
        GherkinLineSpan::new(15, "email".to_string()),
        GherkinLineSpan::new(34, "twitter".to_string())
    ]);

    let line = GherkinLine::new("| new\\nline | pipe \\| | slash \\\\ | other \\v|".to_string(), 1);
    assert_eq!(line.get_table_cells(), vec![
        GherkinLineSpan::new(3, "new\nline".to_string()),
        GherkinLineSpan::new(15, "pipe |".to_string()),
        GherkinLineSpan::new(25, "slash \\".to_string()),
        GherkinLineSpan::new(36, "other \\v".to_string())
    ]);
}

#[test]
fn tags_after_indentation_count_from_it() {
    let line = GherkinLine::new("    @a @bc".to_string(), 3);
    assert_eq!(line.get_tags(), vec![
        GherkinLineSpan::new(5, "@a".to_string()),
        GherkinLineSpan::new(8, "@bc".to_string()),
    ]);
}

#[test]
fn tags_apart_by_two_spaces_keep_one_space_columns() {
    let line = GherkinLine::new("@a  @b".to_string(), 1);
    assert_eq!(line.get_tags(), vec![
        GherkinLineSpan::new(1, "@a".to_string()),
        GherkinLineSpan::new(4, "@b".to_string()),
    ]);
}

#[test]
fn tags_of_blank_line_are_none() {
    let line = GherkinLine::new("   ".to_string(), 1);
    assert_eq!(line.get_tags(), vec![]);
    assert!(line.is_empty());
    assert_eq!(line.indent(), 3);
}

#[test]
fn text_after_last_pipe_is_dropped() {
    let line = GherkinLine::new("|a|b".to_string(), 1);
    assert_eq!(line.get_table_cells(), vec![GherkinLineSpan::new(2, "a".to_string())]);
}

#[test]
fn blank_cell_starts_at_its_pipe() {
    let line = GherkinLine::new("|   |x|".to_string(), 1);
    assert_eq!(line.get_table_cells(), vec![
        GherkinLineSpan::new(2, "".to_string()),
        GherkinLineSpan::new(6, "x".to_string()),
    ]);
}

#[test]
fn rest_trimmed_and_line_text() {
    let line = GherkinLine::new("  Given  a step  ".to_string(), 1);
    assert_eq!(line.get_rest_trimmed(6), "a step");
    assert_eq!(line.get_line_text(2), "Given  a step  ");
    assert_eq!(line.get_line_text(5), "  Given  a step  ");
    assert_eq!(line.get_line_text(0), "  Given  a step  ");
    assert!(line.starts_with("Given"));
    assert!(!line.starts_with("given"));
}

#[test]
fn title_keyword_needs_colon() {
    let line = GherkinLine::new("Scenario Outline: x".to_string(), 1);
    assert!(line.starts_with_title_keyword("Scenario Outline"));
    assert!(!line.starts_with_title_keyword("Scenario"));
    assert!(line.starts_with("Scenario"));
}
