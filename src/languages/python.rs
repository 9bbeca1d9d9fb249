//! Python: syntax errors from a full Python parser.
use crate::languages::utils::{line_at, line_starts, LineConverter};
use vstd::prelude::*;
use vstd::string::StringSliceAdditionalSpecFns;

verus! {

/// The byte offset of the first error that `rustpython_parser` reports for
/// a module, `None` where the module parses.
pub uninterp spec fn python_parse_error_offset(text: Seq<char>) -> Option<usize>;

/// Modules small enough for `rustpython_parser`: its syntax tree is built
/// and dropped recursively, one level per nested expression, and a module
/// this short cannot nest deeper than the stack allows.
pub open spec fn python_checkable(text: Seq<char>) -> bool {
    text.len() <= 4096
}

/// Relies on `rustpython_parser::parse` in module mode and the error's
/// `offset`; the outcome depends on the text alone.
#[verifier::external_body]
fn python_error_offset(content: &str) -> (r: Option<usize>)
    requires
        python_checkable(content@),
    ensures
        r == python_parse_error_offset(content@),
{
    rustpython_parser::parse(content, rustpython_parser::Mode::Module, "anonymous.py")
        .err()
        .map(|e| usize::from(e.offset))
}

/// Python's editor.
#[derive(Debug, Clone, Copy)]
pub struct PythonEditor;

impl PythonEditor {
    pub fn new() -> (r: Self) {
        PythonEditor
    }

    /// The line of the parser's first error, if any.
    pub fn collect_errors(&self, content: &str) -> (r: Vec<usize>)
        requires
            python_checkable(content@),
        ensures
            r@ == match python_parse_error_offset(content@) {
                None => Seq::<usize>::empty(),
                Some(offset) => seq![line_at(line_starts(content.spec_bytes()), offset as int) as usize],
            },
    {
        match python_error_offset(content) {
            None => Vec::new(),
            Some(offset) => {
                let converter = LineConverter::new(content);
                let mut v = Vec::new();
                v.push(converter.offset_to_line(offset));
                v
            },
        }
    }
}

} // verus!
