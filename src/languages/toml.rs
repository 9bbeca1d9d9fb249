//! TOML: errors and formatting from `taplo`.
use crate::languages::utils::{line_at, line_starts, LineConverter};
use crate::text::opener_count;
use vstd::prelude::*;
use vstd::string::StringSliceAdditionalSpecFns;

verus! {

/// The byte spans of the errors that `taplo`'s parser reports for a text.
pub uninterp spec fn toml_parse_error_spans(text: Seq<char>) -> Seq<(usize, usize)>;

/// What `taplo`'s formatter with default options makes of a text.
pub uninterp spec fn toml_layout(text: Seq<char>) -> Seq<char>;

/// Texts that `taplo` handles without exhausting the stack: its parser and
/// formatter recurse once per nesting level, and nesting cannot exceed the
/// number of opening brackets and braces.
pub open spec fn toml_checkable(text: Seq<char>) -> bool {
    opener_count(text) <= 256
}

/// Relies on `taplo::parser::parse`: the start and end of each reported
/// error's range, in the parser's order.
#[verifier::external_body]
fn toml_error_spans(content: &str) -> (r: Vec<(usize, usize)>)
    requires
        toml_checkable(content@),
    ensures
        r@ == toml_parse_error_spans(content@),
{
    taplo::parser::parse(content)
        .errors
        .into_iter()
        .map(|e| (usize::from(e.range.start()), usize::from(e.range.end())))
        .collect()
}

/// Relies on `taplo::formatter::format` with default options.
#[verifier::external_body]
fn toml_format(source: &str) -> (r: String)
    requires
        toml_checkable(source@),
    ensures
        r@ == toml_layout(source@),
{
    taplo::formatter::format(source, taplo::formatter::Options::default())
}

/// Lines `a` up to but not including `b`.
pub open spec fn rows_between(a: int, b: int) -> Seq<usize> {
    if a < b {
        Seq::new((b - a) as nat, |k: int| (a + k) as usize)
    } else {
        Seq::empty()
    }
}

/// For each error span, the lines from the one holding its start up to,
/// not including, the one holding its end.
pub open spec fn span_rows(starts: Seq<usize>, spans: Seq<(usize, usize)>) -> Seq<usize>
    decreases spans.len(),
{
    if spans.len() == 0 {
        Seq::empty()
    } else {
        span_rows(starts, spans.drop_last()) + rows_between(
            line_at(starts, spans.last().0 as int),
            line_at(starts, spans.last().1 as int),
        )
    }
}

/// TOML's editor.
#[derive(Debug, Clone, Copy)]
pub struct TomlEditor;

impl TomlEditor {
    pub fn new() -> (r: Self) {
        TomlEditor
    }

    pub fn format_code(&self, source: &str) -> (r: Result<String, String>)
        requires
            toml_checkable(source@),
        ensures
            r is Ok && r->Ok_0@ == toml_layout(source@),
    {
        Ok(toml_format(source))
    }

    /// The lines covered by the parser's error spans.
    pub fn collect_errors(&self, content: &str) -> (r: Vec<usize>)
        requires
            toml_checkable(content@),
        ensures
            r@ == span_rows(line_starts(content.spec_bytes()), toml_parse_error_spans(content@)),
    {
        let converter = LineConverter::new(content);
        let spans = toml_error_spans(content);
        let ghost starts = line_starts(content.spec_bytes());
        let mut rows: Vec<usize> = Vec::new();
        let mut i: usize = 0;
        while i < spans.len()
            invariant
                i <= spans@.len(),
                converter@ == starts,
                converter.wf(),
                rows@ == span_rows(starts, spans@.take(i as int)),
            decreases spans.len() - i,
        {
            let range = converter.range_to_lines(spans[i].0, spans[i].1);
            let ghost before = rows@;
            let a = range.start;
            let b = range.end;
            if a < b {
                let mut line = a;
                while line < b
                    invariant
                        a <= line <= b,
                        rows@ == before + rows_between(a as int, line as int),
                    decreases b - line,
                {
                    rows.push(line);
                    assert(rows_between(a as int, line + 1) =~= rows_between(a as int, line as int).push(line));
                    line = line + 1;
                }
            } else {
                assert(rows_between(a as int, b as int) =~= Seq::<usize>::empty());
                assert(rows@ =~= before + rows_between(a as int, b as int));
            }
            proof {
                let t = spans@.take(i + 1);
                assert(t.drop_last() =~= spans@.take(i as int));
                assert(t.last() == spans@[i as int]);
            }
            i = i + 1;
        }
        assert(spans@.take(spans@.len() as int) =~= spans@);
        rows
    }
}

} // verus!
