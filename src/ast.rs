//! The feature tree that the parser builds. Each node owns its children.
use vstd::prelude::*;

verus! {

/// A 1-based position in the input.
#[derive(Debug, Clone, Copy, PartialEq, Eq, Structural)]
pub struct Location {
    pub line: usize,
    pub column: usize,
}

impl Location {
    pub fn new(line: usize, column: usize) -> (r: Location)
        ensures
            r.line == line,
            r.column == column,
    {
        Location { line, column }
    }

    pub fn get_line(&self) -> (r: usize)
        ensures
            r == self.line,
    {
        self.line
    }
}

/// Any node of the tree.
#[derive(Debug)]
pub enum Node {
    Step(Step),
    Background(Background),
    Scenario(Scenario),
    ScenarioOutline(ScenarioOutline),
    Tag(Tag),
    TableCell(TableCell),
    TableRow(TableRow),
    Examples(Examples),
    DataTable(DataTable),
    Comment(Comment),
    DocString(DocString),
}

/// A child of a feature.
#[derive(Debug)]
pub enum ScenarioDefinition {
    Scenario(Scenario),
    ScenarioOutline(ScenarioOutline),
    Background(Background),
}

/// What a step is given besides its text.
#[derive(Debug)]
pub enum Argument {
    DataTable(DataTable),
    DocString(DocString),
}

/// A `Background:` block: steps that run before each scenario.
#[derive(Debug)]
pub struct Background {
    pub location: Location,
    pub keyword: String,
    pub name: String,
    pub description: String,
    pub steps: Vec<Step>,
}

impl Background {
    pub fn new(location: Location, keyword: String, name: String, description: String, steps: Vec<Step>) -> (r: Background)
        ensures
            r.location == location,
            r.keyword == keyword,
            r.name == name,
            r.description == description,
            r.steps == steps,
    {
        Background { location, keyword, name, description, steps }
    }

    pub fn get_location(&self) -> (r: &Location)
        ensures
            *r == self.location,
    {
        &self.location
    }

    pub fn get_name(&self) -> (r: &str)
        ensures
            r@ == self.name@,
    {
        self.name.as_str()
    }

    pub fn get_keyword(&self) -> (r: &str)
        ensures
            r@ == self.keyword@,
    {
        self.keyword.as_str()
    }

    pub fn get_description(&self) -> (r: &str)
        ensures
            r@ == self.description@,
    {
        self.description.as_str()
    }

    pub fn get_steps(&self) -> (r: &Vec<Step>)
        ensures
            *r == self.steps,
    {
        &self.steps
    }
}

/// A comment line, kept with its full text.
#[derive(Debug)]
pub struct Comment {
    pub location: Location,
    pub text: String,
}

impl Comment {
    pub fn new(location: Location, text: String) -> (r: Comment)
        ensures
            r.location == location,
            r.text == text,
    {
        Comment { location, text }
    }

    pub fn get_location(&self) -> (r: &Location)
        ensures
            *r == self.location,
    {
        &self.location
    }

    pub fn get_text(&self) -> (r: &str)
        ensures
            r@ == self.text@,
    {
        self.text.as_str()
    }
}

/// A table given to a step.
#[derive(Debug)]
pub struct DataTable {
    pub rows: Vec<TableRow>,
}

impl DataTable {
    pub fn new(rows: Vec<TableRow>) -> (r: DataTable)
        ensures
            r.rows == rows,
    {
        DataTable { rows }
    }

    pub fn get_rows(&self) -> (r: &Vec<TableRow>)
        ensures
            *r == self.rows,
    {
        &self.rows
    }
}

/// A block of free text given to a step, between two fences.
#[derive(Debug)]
pub struct DocString {
    pub location: Location,
    pub content_type: String,
    pub content: String,
}

impl DocString {
    pub fn new(location: Location, content_type: String, content: String) -> (r: DocString)
        ensures
            r.location == location,
            r.content_type == content_type,
            r.content == content,
    {
        DocString { location, content_type, content }
    }

    pub fn get_location(&self) -> (r: &Location)
        ensures
            *r == self.location,
    {
        &self.location
    }

    pub fn get_content(&self) -> (r: &str)
        ensures
            r@ == self.content@,
    {
        self.content.as_str()
    }

    pub fn get_content_type(&self) -> (r: &str)
        ensures
            r@ == self.content_type@,
    {
        self.content_type.as_str()
    }
}

/// An `Examples:` block of a scenario outline.
#[derive(Debug)]
pub struct Examples {
    pub location: Location,
    pub keyword: String,
    pub name: String,
    pub description: String,
    pub table_body: Vec<TableRow>,
    pub table_header: TableRow,
    pub tags: Vec<Tag>,
}

impl Examples {
    pub fn new(location: Location, tags: Vec<Tag>, keyword: String, name: String, description: String, table_header: TableRow, table_body: Vec<TableRow>) -> (r: Examples)
        ensures
            r.location == location,
            r.tags == tags,
            r.keyword == keyword,
            r.name == name,
            r.description == description,
            r.table_header == table_header,
            r.table_body == table_body,
    {
        Examples { location, tags, keyword, name, description, table_header, table_body }
    }

    pub fn get_location(&self) -> (r: &Location)
        ensures
            *r == self.location,
    {
        &self.location
    }

    pub fn get_name(&self) -> (r: &str)
        ensures
            r@ == self.name@,
    {
        self.name.as_str()
    }

    pub fn get_keyword(&self) -> (r: &str)
        ensures
            r@ == self.keyword@,
    {
        self.keyword.as_str()
    }

    pub fn get_description(&self) -> (r: &str)
        ensures
            r@ == self.description@,
    {
        self.description.as_str()
    }

    pub fn get_table_header(&self) -> (r: &TableRow)
        ensures
            *r == self.table_header,
    {
        &self.table_header
    }

    pub fn get_table_body(&self) -> (r: &Vec<TableRow>)
        ensures
            *r == self.table_body,
    {
        &self.table_body
    }
}

/// A whole feature file.
#[derive(Debug)]
pub struct Feature {
    pub location: Location,
    pub tags: Vec<Tag>,
    pub language: String,
    pub keyword: String,
    pub name: String,
    pub description: String,
    pub children: Vec<ScenarioDefinition>,
    pub comments: Vec<Comment>,
}

impl Feature {
    pub fn new(tags: Vec<Tag>, location: Location, language: String, keyword: String, name: String, description: String, children: Vec<ScenarioDefinition>, comments: Vec<Comment>) -> (r: Feature)
        ensures
            r.tags == tags,
            r.location == location,
            r.language == language,
            r.keyword == keyword,
            r.name == name,
            r.description == description,
            r.children == children,
            r.comments == comments,
    {
        Feature { tags, location, language, keyword, name, description, children, comments }
    }

    pub fn get_location(&self) -> (r: &Location)
        ensures
            *r == self.location,
    {
        &self.location
    }

    pub fn get_name(&self) -> (r: &str)
        ensures
            r@ == self.name@,
    {
        self.name.as_str()
    }

    pub fn get_keyword(&self) -> (r: &str)
        ensures
            r@ == self.keyword@,
    {
        self.keyword.as_str()
    }

    pub fn get_description(&self) -> (r: &str)
        ensures
            r@ == self.description@,
    {
        self.description.as_str()
    }

    pub fn get_language(&self) -> (r: &str)
        ensures
            r@ == self.language@,
    {
        self.language.as_str()
    }

    pub fn get_children(&self) -> (r: &Vec<ScenarioDefinition>)
        ensures
            *r == self.children,
    {
        &self.children
    }

    pub fn get_tags(&self) -> (r: &Vec<Tag>)
        ensures
            *r == self.tags,
    {
        &self.tags
    }

    pub fn get_comments(&self) -> (r: &Vec<Comment>)
        ensures
            *r == self.comments,
    {
        &self.comments
    }
}

/// A scenario: a list of steps.
#[derive(Debug)]
pub struct Scenario {
    pub location: Location,
    pub keyword: String,
    pub name: String,
    pub description: String,
    pub steps: Vec<Step>,
    pub tags: Vec<Tag>,
}

impl Scenario {
    pub fn new(tags: Vec<Tag>, location: Location, keyword: String, name: String, description: String, steps: Vec<Step>) -> (r: Scenario)
        ensures
            r.tags == tags,
            r.location == location,
            r.keyword == keyword,
            r.name == name,
            r.description == description,
            r.steps == steps,
    {
        Scenario { tags, location, keyword, name, description, steps }
    }

    pub fn get_location(&self) -> (r: &Location)
        ensures
            *r == self.location,
    {
        &self.location
    }

    pub fn get_name(&self) -> (r: &str)
        ensures
            r@ == self.name@,
    {
        self.name.as_str()
    }

    pub fn get_keyword(&self) -> (r: &str)
        ensures
            r@ == self.keyword@,
    {
        self.keyword.as_str()
    }

    pub fn get_description(&self) -> (r: &str)
        ensures
            r@ == self.description@,
    {
        self.description.as_str()
    }

    pub fn get_steps(&self) -> (r: &Vec<Step>)
        ensures
            *r == self.steps,
    {
        &self.steps
    }

    pub fn get_tags(&self) -> (r: &Vec<Tag>)
        ensures
            *r == self.tags,
    {
        &self.tags
    }
}

/// A scenario outline: steps run once for each row of its examples.
#[derive(Debug)]
pub struct ScenarioOutline {
    pub location: Location,
    pub keyword: String,
    pub name: String,
    pub description: String,
    pub steps: Vec<Step>,
    pub tags: Vec<Tag>,
    pub examples: Vec<Examples>,
}

impl ScenarioOutline {
    pub fn new(tags: Vec<Tag>, location: Location, keyword: String, name: String, description: String, steps: Vec<Step>, examples: Vec<Examples>) -> (r: ScenarioOutline)
        ensures
            r.tags == tags,
            r.location == location,
            r.keyword == keyword,
            r.name == name,
            r.description == description,
            r.steps == steps,
            r.examples == examples,
    {
        ScenarioOutline { tags, location, keyword, name, description, steps, examples }
    }

    pub fn get_location(&self) -> (r: &Location)
        ensures
            *r == self.location,
    {
        &self.location
    }

    pub fn get_name(&self) -> (r: &str)
        ensures
            r@ == self.name@,
    {
        self.name.as_str()
    }

    pub fn get_keyword(&self) -> (r: &str)
        ensures
            r@ == self.keyword@,
    {
        self.keyword.as_str()
    }

    pub fn get_description(&self) -> (r: &str)
        ensures
            r@ == self.description@,
    {
        self.description.as_str()
    }

    pub fn get_steps(&self) -> (r: &Vec<Step>)
        ensures
            *r == self.steps,
    {
        &self.steps
    }

    pub fn get_examples(&self) -> (r: &Vec<Examples>)
        ensures
            *r == self.examples,
    {
        &self.examples
    }
}

/// A step, with the table or text block given to it if any.
#[derive(Debug)]
pub struct Step {
    pub location: Location,
    pub keyword: String,
    pub text: String,
    pub argument: Option<Argument>,
}

impl Step {
    pub fn new(location: Location, keyword: String, text: String, argument: Option<Argument>) -> (r: Step)
        ensures
            r.location == location,
            r.keyword == keyword,
            r.text == text,
            r.argument == argument,
    {
        Step { location, keyword, text, argument }
    }

    pub fn get_location(&self) -> (r: &Location)
        ensures
            *r == self.location,
    {
        &self.location
    }

    pub fn get_text(&self) -> (r: &str)
        ensures
            r@ == self.text@,
    {
        self.text.as_str()
    }

    pub fn get_keyword(&self) -> (r: &str)
        ensures
            r@ == self.keyword@,
    {
        self.keyword.as_str()
    }

    pub fn get_argument(&self) -> (r: &Option<Argument>)
        ensures
            *r == self.argument,
    {
        &self.argument
    }
}

/// One cell of a table row.
#[derive(Debug)]
pub struct TableCell {
    pub location: Location,
    pub value: String,
}

impl TableCell {
    pub fn new(location: Location, value: String) -> (r: TableCell)
        ensures
            r.location == location,
            r.value == value,
    {
        TableCell { location, value }
    }

    pub fn get_location(&self) -> (r: &Location)
        ensures
            *r == self.location,
    {
        &self.location
    }

    pub fn get_value(&self) -> (r: &str)
        ensures
            r@ == self.value@,
    {
        self.value.as_str()
    }
}

/// One row of a table.
#[derive(Debug)]
pub struct TableRow {
    pub location: Location,
    pub cells: Vec<TableCell>,
}

impl TableRow {
    pub fn new(location: Location, cells: Vec<TableCell>) -> (r: TableRow)
        ensures
            r.location == location,
            r.cells == cells,
    {
        TableRow { location, cells }
    }

    pub fn get_location(&self) -> (r: &Location)
        ensures
            *r == self.location,
    {
        &self.location
    }

    pub fn get_cells(&self) -> (r: &Vec<TableCell>)
        ensures
            *r == self.cells,
    {
        &self.cells
    }
}

/// A tag such as `@slow`.
#[derive(Debug)]
pub struct Tag {
    pub location: Location,
    pub name: String,
}

impl Tag {
    pub fn new(location: Location, name: String) -> (r: Tag)
        ensures
            r.location == location,
            r.name == name,
    {
        Tag { location, name }
    }

    pub fn get_location(&self) -> (r: &Location)
        ensures
            *r == self.location,
    {
        &self.location
    }

    pub fn get_name(&self) -> (r: &str)
        ensures
            r@ == self.name@,
    {
        self.name.as_str()
    }
}

} // verus!
