//! Editors that use the parser's own error nodes.
use crate::syntax::{tree_node_count, tree_node_facts, tree_nodes};
use tree_sitter::Tree;
use vstd::prelude::*;

verus! {

/// The editor of languages with no checks of their own: error and missing
/// nodes of the tree are the syntax errors, and code is left as it is.
#[derive(Debug, Clone, Copy)]
pub struct DefaultEditor;

/// TypeScript and TSX: the default behaviour.
#[derive(Debug, Clone, Copy)]
pub struct TypescriptEditor;

/// The start rows of the error and missing nodes among `nodes`, in order.
pub open spec fn error_rows(nodes: Seq<(bool, bool, usize)>) -> Seq<usize>
    decreases nodes.len(),
{
    if nodes.len() == 0 {
        Seq::empty()
    } else {
        error_rows(nodes.drop_last()) + if nodes.last().0 || nodes.last().1 {
            seq![nodes.last().2]
        } else {
            Seq::empty()
        }
    }
}

/// The zero-based rows where the tree's error and missing nodes start, in
/// pre-order.
pub fn tree_error_rows(tree: &Tree) -> (r: Vec<usize>)
    ensures
        r@ == error_rows(tree_nodes(*tree)),
{
    let ghost nodes = tree_nodes(*tree);
    let count = tree_node_count(tree);
    let mut rows: Vec<usize> = Vec::new();
    let mut i: usize = 0;
    while i < count
        invariant
            i <= count,
            count == nodes.len(),
            nodes == tree_nodes(*tree),
            rows@ == error_rows(nodes.take(i as int)),
        decreases count - i,
    {
        let (is_error, is_missing, row) = tree_node_facts(tree, i);
        assert(nodes.take(i + 1).drop_last() =~= nodes.take(i as int));
        if is_error || is_missing {
            rows.push(row);
        }
        i = i + 1;
    }
    assert(nodes.take(count as int) =~= nodes);
    rows
}

impl DefaultEditor {
    pub fn new() -> (r: Self) {
        DefaultEditor
    }

    pub fn collect_errors(&self, tree: &Tree) -> (r: Vec<usize>)
        ensures
            r@ == error_rows(tree_nodes(*tree)),
    {
        tree_error_rows(tree)
    }

    /// Code is kept as written.
    pub fn format_code(&self, source: &str) -> (r: Result<String, String>)
        ensures
            r is Ok && r->Ok_0@ == source@,
    {
        Ok(String::from_str(source))
    }
}

impl TypescriptEditor {
    pub fn new() -> (r: Self) {
        TypescriptEditor
    }

    pub fn collect_errors(&self, tree: &Tree) -> (r: Vec<usize>)
        ensures
            r@ == error_rows(tree_nodes(*tree)),
    {
        tree_error_rows(tree)
    }

    /// Code is kept as written.
    pub fn format_code(&self, source: &str) -> (r: Result<String, String>)
        ensures
            r is Ok && r->Ok_0@ == source@,
    {
        Ok(String::from_str(source))
    }
}

} // verus!
