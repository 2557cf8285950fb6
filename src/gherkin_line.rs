//! One physical line of a feature file, with its indentation and trimmed text
//! worked out once.
use vstd::prelude::*;
use crate::gherkin_line_span::GherkinLineSpan;
use crate::text::{
    all_space, chars_of, has_prefix_at, is_prefix, is_space, is_space_char, lead_len, lemma_trim_twice,
    lead_space_count, string_of, sub_vec, trim, trim_bounds, trim_start,
};

verus! {

/// Whether `k` followed by the title separator `:` opens `t`.
pub open spec fn is_title_prefix(k: Seq<char>, t: Seq<char>) -> bool {
    is_prefix(k, t) && is_prefix(seq![':'], t.subrange(k.len() as int, t.len() as int))
}

/// The white-space separated words of `s`, as `str::split_whitespace` gives
/// them, defined by reading `s` one character at a time.
pub open spec fn words(s: Seq<char>) -> Seq<Seq<char>>
    decreases s.len(),
{
    if s.len() == 0 {
        seq![]
    } else {
        let w = words(s.drop_last());
        let c = s.last();
        if is_space(c) {
            w
        } else if s.len() >= 2 && !is_space(s[s.len() - 2]) && w.len() > 0 {
            w.update(w.len() - 1, w.last().push(c))
        } else {
            w.push(seq![c])
        }
    }
}

/// How far the `k`-th tag stands from the first one: each earlier tag is
/// counted with one separating space.
pub open spec fn tag_offset(ws: Seq<Seq<char>>, k: int) -> int
    decreases k,
{
    if k <= 0 {
        0
    } else {
        tag_offset(ws, k - 1) + ws[k - 1].len() + 1
    }
}

/// Where the text of a cell starts within it: after its leading white space,
/// or at 0 when the cell holds nothing else.
pub open spec fn content_start(cell: Seq<char>) -> int {
    if lead_len(cell) == cell.len() {
        0
    } else {
        lead_len(cell) as int
    }
}

/// What an escaped character stands for inside a table cell.
pub open spec fn unescaped(c: char) -> Seq<char> {
    if c == 'n' {
        seq!['\n']
    } else if c == '\\' {
        seq!['\\']
    } else if c == '|' {
        seq!['|']
    } else {
        seq!['\\', c]
    }
}

/// The state of reading table cells off a trimmed line: the cells found
/// (column relative to the indentation, trimmed text), the cell being read,
/// whether the opening `|` is still ahead, the column of the `|` that opened
/// the current cell, and whether the last character was an unescaped `\`.
pub struct CellScan {
    pub spans: Seq<(int, Seq<char>)>,
    pub cell: Seq<char>,
    pub before_first: bool,
    pub start_col: int,
    pub escaping: bool,
}

/// Reading the character `c` at column `col`.
pub open spec fn cell_step(st: CellScan, col: int, c: char) -> CellScan {
    if st.escaping {
        CellScan {
            spans: st.spans,
            cell: st.cell + unescaped(c),
            before_first: st.before_first,
            start_col: st.start_col,
            escaping: false,
        }
    } else if c == '|' {
        if st.before_first {
            CellScan {
                spans: st.spans,
                cell: st.cell,
                before_first: false,
                start_col: st.start_col,
                escaping: false,
            }
        } else {
            CellScan {
                spans: st.spans.push((st.start_col + content_start(st.cell) + 2, trim(st.cell))),
                cell: seq![],
                before_first: false,
                start_col: col,
                escaping: false,
            }
        }
    } else if c == '\\' {
        CellScan {
            spans: st.spans,
            cell: st.cell,
            before_first: st.before_first,
            start_col: st.start_col,
            escaping: true,
        }
    } else {
        CellScan {
            spans: st.spans,
            cell: st.cell.push(c),
            before_first: st.before_first,
            start_col: st.start_col,
            escaping: false,
        }
    }
}

/// The state after reading all of `t`.
pub open spec fn cell_scan(t: Seq<char>) -> CellScan
    decreases t.len(),
{
    if t.len() == 0 {
        CellScan { spans: seq![], cell: seq![], before_first: true, start_col: 0, escaping: false }
    } else {
        cell_step(cell_scan(t.drop_last()), t.len() - 1, t.last())
    }
}

/// Adding a word at the end leaves the offsets of the earlier ones alone.
pub proof fn lemma_tag_offset_prefix(ws: Seq<Seq<char>>, w: Seq<char>, k: int)
    requires
        0 <= k <= ws.len(),
    ensures
        tag_offset(ws.push(w), k) == tag_offset(ws, k),
    decreases k,
{
    if k > 0 {
        lemma_tag_offset_prefix(ws, w, k - 1);
        assert(ws.push(w)[k - 1] == ws[k - 1]);
    }
}

/// Spans as (column, text) pairs.
pub open spec fn spans_of(v: Seq<GherkinLineSpan>) -> Seq<(int, Seq<char>)> {
    Seq::new(v.len(), |k: int| (v[k].column as int, v[k].text@))
}

/// Trimming the front never lengthens a sequence.
pub proof fn lemma_trim_start_len(s: Seq<char>)
    ensures
        trim_start(s).len() <= s.len(),
    decreases s.len(),
{
    if s.len() > 0 && is_space(s[0]) {
        lemma_trim_start_len(s.subrange(1, s.len() as int));
    }
}

/// What holds of the state after reading `n` characters: columns rise, texts
/// are trimmed, the
/// last cell found starts at most one past the `|` that opened the current
/// cell, and the current cell holds no more characters than were read since.
pub open spec fn scan_shape(st: CellScan, n: int) -> bool {
    &&& forall|k: int, m: int|
        0 <= k < m < st.spans.len() ==> (#[trigger] st.spans[k]).0 < (#[trigger] st.spans[m]).0
    &&& st.spans.len() > 0 ==> st.spans.last().0 <= st.start_col + 1
    &&& forall|k: int| 0 <= k < st.spans.len() ==> trim((#[trigger] st.spans[k]).1) == st.spans[k].1
    &&& st.before_first ==> st.spans.len() == 0 && st.start_col == 0
    &&& 0 <= st.start_col
    &&& st.start_col < n || (st.start_col == 0 && n == 0)
    &&& st.cell.len() + (if st.escaping { 1int } else { 0int }) <= (if st.before_first {
        n
    } else {
        n - st.start_col - 1
    })
}

/// The cells of a row start at rising columns and have trimmed texts.
pub proof fn lemma_cell_columns_rise(t: Seq<char>)
    ensures
        scan_shape(cell_scan(t), t.len() as int),
        forall|k: int, m: int|
            0 <= k < m < cell_scan(t).spans.len() ==> (#[trigger] cell_scan(t).spans[k]).0 < (
            #[trigger] cell_scan(t).spans[m]).0,
    decreases t.len(),
{
    if t.len() > 0 {
        let p = t.drop_last();
        lemma_cell_columns_rise(p);
        let st = cell_scan(p);
        lemma_trim_start_len(st.cell);
        let n = t.len() as int;
        let nx = cell_step(st, n - 1, t.last());
        assert(cell_scan(t) == nx);
        if !st.escaping && t.last() == '|' && !st.before_first {
            let sp = st.spans.push((st.start_col + content_start(st.cell) + 2, trim(st.cell)));
            assert(nx.spans == sp);
            lemma_trim_twice(st.cell);
            assert forall|k: int| 0 <= k < sp.len() implies trim((#[trigger] sp[k]).1) == sp[k].1 by {
                if k < st.spans.len() {
                    assert(sp[k] == st.spans[k]);
                }
            }
            assert forall|k: int, m: int| 0 <= k < m < sp.len() implies (#[trigger] sp[k]).0 < (
                #[trigger] sp[m]).0 by {
                if m < sp.len() - 1 {
                    assert(sp[k] == st.spans[k] && sp[m] == st.spans[m]);
                } else if k < st.spans.len() {
                    assert(sp[k] == st.spans[k]);
                    if k < st.spans.len() - 1 {
                        assert(st.spans[k].0 < st.spans.last().0);
                    }
                }
            }
        }
    }
}

/// A line of input with its number. Its indentation is the count of white
/// space characters that open it, and its trimmed text has white space
/// removed at both ends.
#[derive(Debug, PartialEq)]
pub struct GherkinLine {
    line_number: u64,
    line_text: String,
    trimmed_line_text: String,
    chars: Vec<char>,
    trimmed: Vec<char>,
    indent: usize,
}

impl GherkinLine {
    #[verifier::type_invariant]
    closed spec fn inv(&self) -> bool {
        &&& self.chars@ == self.line_text@
        &&& self.trimmed_line_text@ == self.trimmed@
        &&& self.trimmed@ == trim(self.line_text@)
        &&& self.indent == lead_len(self.line_text@)
        &&& self.indent + self.trimmed@.len() <= self.line_text@.len()
        &&& self.trimmed@ == self.line_text@.subrange(
            self.indent as int,
            self.indent + self.trimmed@.len(),
        )
        &&& self.line_text@.len() <= isize::MAX
    }

    /// The whole line.
    pub closed spec fn text(&self) -> Seq<char> {
        self.line_text@
    }

    pub closed spec fn number(&self) -> u64 {
        self.line_number
    }

    pub open spec fn trimmed_text(&self) -> Seq<char> {
        trim(self.text())
    }

    pub open spec fn spec_indent(&self) -> nat {
        lead_len(self.text())
    }

    /// The tags of the line as `get_tags` gives them.
    pub open spec fn tag_spans(&self) -> Seq<(int, Seq<char>)> {
        let ws = words(self.trimmed_text());
        Seq::new(ws.len(), |k: int| (self.spec_indent() + 1 + tag_offset(ws, k), ws[k]))
    }

    /// The cells of the line as `get_table_cells` gives them.
    pub open spec fn cell_spans(&self) -> Seq<(int, Seq<char>)> {
        let sp = cell_scan(self.trimmed_text()).spans;
        Seq::new(sp.len(), |k: int| (self.spec_indent() + sp[k].0, sp[k].1))
    }

    pub fn new(line_text: String, line_number: u64) -> (r: GherkinLine)
        requires
            line_text@.len() <= isize::MAX,
        ensures
            r.text() == line_text@,
            r.number() == line_number,
    {
        let chars = chars_of(line_text.as_str());
        let (b, e) = trim_bounds(&chars, 0);
        let trimmed = sub_vec(&chars, b, e);
        let trimmed_line_text = string_of(&chars, b, e);
        assert(chars@.subrange(0, chars@.len() as int) == chars@);
        GherkinLine { line_number, line_text, trimmed_line_text, chars, trimmed, indent: b }
    }

    /// The count of white space characters that open the line.
    pub fn indent(&self) -> (r: usize)
        ensures
            r == self.spec_indent(),
            r + self.trimmed_text().len() <= self.text().len() <= isize::MAX,
    {
        proof {
            use_type_invariant(self);
        }
        self.indent
    }

    /// The trimmed line from `length` on, trimmed again.
    pub fn get_rest_trimmed(&self, length: usize) -> (r: String)
        requires
            length <= self.trimmed_text().len(),
        ensures
            r@ == trim(self.trimmed_text().subrange(length as int, self.trimmed_text().len() as int)),
    {
        proof {
            use_type_invariant(self);
        }
        let (b, e) = trim_bounds(&self.trimmed, length);
        string_of(&self.trimmed, b, e)
    }

    /// The line without its first `indent_to_remove` characters, or the whole
    /// line where that is more than its indentation.
    pub fn get_line_text(&self, indent_to_remove: usize) -> (r: String)
        ensures
            r@ == if indent_to_remove > self.spec_indent() {
                self.text()
            } else {
                self.text().subrange(indent_to_remove as int, self.text().len() as int)
            },
    {
        proof {
            use_type_invariant(self);
        }
        if indent_to_remove > self.indent {
            self.line_text.clone()
        } else {
            string_of(&self.chars, indent_to_remove, self.chars.len())
        }
    }

    /// Whether the line holds only white space.
    pub fn is_empty(&self) -> (r: bool)
        ensures
            r == (self.trimmed_text().len() == 0),
    {
        proof {
            use_type_invariant(self);
        }
        self.trimmed.len() == 0
    }

    /// Whether the trimmed line starts with `prefix`.
    pub fn starts_with(&self, prefix: &str) -> (r: bool)
        ensures
            r == is_prefix(prefix@, self.trimmed_text()),
    {
        proof {
            use_type_invariant(self);
        }
        let p = chars_of(prefix);
        assert(self.trimmed@.subrange(0, self.trimmed@.len() as int) == self.trimmed@);
        has_prefix_at(&self.trimmed, 0, &p)
    }

    /// Whether the trimmed line starts with `prefix` followed by `:`.
    pub fn starts_with_title_keyword(&self, prefix: &str) -> (r: bool)
        ensures
            r == is_title_prefix(prefix@, self.trimmed_text()),
            r ==> prefix@.len() < self.trimmed_text().len() <= isize::MAX,
    {
        proof {
            use_type_invariant(self);
        }
        let p = chars_of(prefix);
        assert(self.trimmed@.subrange(0, self.trimmed@.len() as int) == self.trimmed@);
        if !has_prefix_at(&self.trimmed, 0, &p) {
            return false;
        }
        let sep = vec![':'];
        assert(sep@ == seq![':']);
        has_prefix_at(&self.trimmed, p.len(), &sep)
    }

    /// The white-space separated words of the trimmed line, each with the
    /// column it would have if the words stood one space apart.
    pub fn get_tags(&self) -> (r: Vec<GherkinLineSpan>)
        ensures
            spans_of(r@) == self.tag_spans(),
            r@.len() == words(self.trimmed_text()).len(),
            forall|k: int|
                0 <= k < r@.len() ==> {
                    &&& (#[trigger] r@[k]).text@ == words(self.trimmed_text())[k]
                    &&& r@[k].column == self.spec_indent() + 1 + tag_offset(
                        words(self.trimmed_text()),
                        k,
                    )
                },
    {
        proof {
            use_type_invariant(self);
        }
        let t = &self.trimmed;
        let indent = self.indent;
        let mut spans: Vec<GherkinLineSpan> = Vec::new();
        let ghost mut done: Seq<Seq<char>> = seq![];
        let mut column = indent + 1;
        let mut in_word = false;
        let mut word_start: usize = 0;
        let mut i: usize = 0;
        while i < t.len()
            invariant
                i <= t@.len(),
                indent + t@.len() <= isize::MAX,
                t@ == trim(self.text()),
                indent == self.spec_indent(),
                word_start <= i,
                in_word ==> word_start < i,
                in_word <==> (i > 0 && !is_space(t@[i - 1])),
                in_word ==> words(t@.subrange(0, i as int)) == done.push(
                    t@.subrange(word_start as int, i as int),
                ),
                !in_word ==> words(t@.subrange(0, i as int)) == done,
                spans@.len() == done.len(),
                forall|k: int|
                    0 <= k < spans@.len() ==> {
                        &&& (#[trigger] spans@[k]).text@ == done[k]
                        &&& spans@[k].column == indent + 1 + tag_offset(done, k)
                    },
                column == indent + 1 + tag_offset(done, done.len() as int),
                tag_offset(done, done.len() as int) + (if in_word {
                    i - word_start
                } else {
                    0int
                }) <= i,
            decreases t.len() - i,
        {
            let c = t[i];
            let ghost pre = t@.subrange(0, i as int);
            assert(t@.subrange(0, i + 1).drop_last() == pre);
            assert(t@.subrange(0, i + 1).last() == c);
            if is_space_char(c) {
                if in_word {
                    let word = string_of(t, word_start, i);
                    let len = i - word_start;
                    spans.push(GherkinLineSpan::new(column, word));
                    proof {
                        let w = t@.subrange(word_start as int, i as int);
                        assert(tag_offset(done.push(w), done.len() + 1 as int) == tag_offset(done.push(w), done.len() as int) + w.len() + 1);
                        assert forall|k: int| 0 <= k <= done.len() implies tag_offset(done.push(w), k) == tag_offset(done, k) by {
                            lemma_tag_offset_prefix(done, w, k);
                        }
                        done = done.push(w);
                    }
                    column = column + len + 1;
                    in_word = false;
                }
            } else {
                if !in_word {
                    word_start = i;
                    in_word = true;
                    proof {
                        assert(t@.subrange(word_start as int, i + 1) == seq![c]);
                    }
                } else {
                    proof {
                        let w = words(pre);
                        assert(w.len() > 0);
                        assert(pre.len() >= 1 && pre.last() == t@[i - 1]);
                        assert(t@.subrange(word_start as int, i + 1) == t@.subrange(word_start as int, i as int).push(c));
                        assert(done.push(t@.subrange(word_start as int, i as int)).update(done.len() as int, t@.subrange(word_start as int, i + 1)) == done.push(t@.subrange(word_start as int, i + 1)));
                    }
                }
            }
            i += 1;
        }
        if in_word {
            let word = string_of(t, word_start, i);
            spans.push(GherkinLineSpan::new(column, word));
            proof {
                let w = t@.subrange(word_start as int, i as int);
                assert forall|k: int| 0 <= k <= done.len() implies tag_offset(done.push(w), k) == tag_offset(done, k) by {
                    lemma_tag_offset_prefix(done, w, k);
                }
                done = done.push(w);
            }
        }
        assert(t@.subrange(0, t@.len() as int) == t@);
        assert(spans_of(spans@) =~= self.tag_spans());
        spans
    }

    /// The cells of a table row: the trimmed line is cut at each `|` that is
    /// not escaped, the first `|` only opens the row, and what follows the
    /// last `|` is dropped. Inside a cell `\n`, `\\` and `\|` stand for a line
    /// break, a backslash and a pipe; any other escaped character keeps its
    /// backslash.
    pub fn get_table_cells(&self) -> (r: Vec<GherkinLineSpan>)
        ensures
            spans_of(r@) == self.cell_spans(),
            forall|k: int, m: int|
                0 <= k < m < r@.len() ==> (#[trigger] r@[k]).column < (#[trigger] r@[m]).column,
            forall|k: int| 0 <= k < r@.len() ==> trim((#[trigger] r@[k]).text@) == r@[k].text@,
            r@.len() == cell_scan(self.trimmed_text()).spans.len(),
            forall|k: int|
                0 <= k < r@.len() ==> {
                    &&& (#[trigger] r@[k]).text@ == cell_scan(self.trimmed_text()).spans[k].1
                    &&& r@[k].column == self.spec_indent() + cell_scan(
                        self.trimmed_text(),
                    ).spans[k].0
                },
    {
        proof {
            use_type_invariant(self);
        }
        let t = &self.trimmed;
        let indent = self.indent;
        let mut spans: Vec<GherkinLineSpan> = Vec::new();
        let ghost mut found: Seq<(int, Seq<char>)> = seq![];
        let mut cell: Vec<char> = Vec::new();
        let mut before_first = true;
        let mut start_col: usize = 0;
        let mut escaping = false;
        let mut i: usize = 0;
        while i < t.len()
            invariant
                i <= t@.len(),
                indent + t@.len() <= isize::MAX,
                t@ == trim(self.text()),
                indent == self.spec_indent(),
                start_col <= i,
                start_col < i || (start_col == 0 && i == 0),
                cell@.len() + (if escaping {
                    1int
                } else {
                    0int
                }) <= i - start_col,
                cell_scan(t@.subrange(0, i as int)) == (CellScan {
                    spans: found,
                    cell: cell@,
                    before_first,
                    start_col: start_col as int,
                    escaping,
                }),
                spans@.len() == found.len(),
                forall|k: int|
                    0 <= k < spans@.len() ==> {
                        &&& (#[trigger] spans@[k]).text@ == found[k].1
                        &&& spans@[k].column == indent + found[k].0
                    },
            decreases t.len() - i,
        {
            let c = t[i];
            assert(t@.subrange(0, i + 1).drop_last() == t@.subrange(0, i as int));
            assert(t@.subrange(0, i + 1).last() == c);
            if escaping {
                let ghost before = cell@;
                if c == 'n' {
                    cell.push('\n');
                } else if c == '\\' {
                    cell.push('\\');
                } else if c == '|' {
                    cell.push('|');
                } else {
                    cell.push('\\');
                    cell.push(c);
                }
                assert(cell@ == before + unescaped(c));
                escaping = false;
            } else if c == '|' {
                if before_first {
                    before_first = false;
                } else {
                    let n = lead_space_count(&cell, 0);
                    let content_start = if n == cell.len() {
                        0
                    } else {
                        n
                    };
                    let (b, e) = trim_bounds(&cell, 0);
                    let text = string_of(&cell, b, e);
                    assert(cell@.subrange(0, cell@.len() as int) == cell@);
                    spans.push(GherkinLineSpan::new(indent + start_col + content_start + 2, text));
                    proof {
                        found = found.push((start_col + content_start + 2, trim(cell@)));
                    }
                    start_col = i;
                    cell = Vec::new();
                }
            } else if c == '\\' {
                escaping = true;
            } else {
                cell.push(c);
            }
            i += 1;
        }
        assert(t@.subrange(0, t@.len() as int) == t@);
        assert(spans_of(spans@) =~= self.cell_spans());
        proof {
            lemma_cell_columns_rise(t@);
        }
        spans
    }

} // impl GherkinLine

} // verus!
