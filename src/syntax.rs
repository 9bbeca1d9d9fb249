//! The parser behind the validator and the node resolver. Parsers, trees
//! and queries are opaque values; what the library reads from them is
//! modelled by names: the nodes a tree holds, the parse of a text with a
//! grammar, the node that covers a byte range, and a query's captures.
use vstd::prelude::*;
use tree_sitter::StreamingIterator;

verus! {

#[verifier::external_type_specification]
#[verifier::external_body]
pub struct ExLanguage(tree_sitter::Language);

#[verifier::external_type_specification]
#[verifier::external_body]
pub struct ExParser(tree_sitter::Parser);

#[verifier::external_type_specification]
#[verifier::external_body]
pub struct ExTree(tree_sitter::Tree);

#[verifier::external_type_specification]
#[verifier::external_body]
pub struct ExQuery(tree_sitter::Query);

/// The nodes a syntax tree holds, in pre-order (the order of descendant
/// indices, the root first), each as: is an error node, is a missing node,
/// zero-based start row.
pub uninterp spec fn tree_nodes(t: tree_sitter::Tree) -> Seq<(bool, bool, usize)>;

/// The nodes, as [`tree_nodes`] lists them, of the tree that tree-sitter
/// parses a text into with a grammar; parsing depends on these alone.
pub uninterp spec fn parsed_nodes(grammar: tree_sitter::Language, text: Seq<char>) -> Seq<(bool, bool, usize)>;

/// The grammar a parser was given, if any.
pub uninterp spec fn parser_grammar(p: tree_sitter::Parser) -> Option<tree_sitter::Language>;

/// Tree-sitter accepts the grammar: its ABI version is one this parser
/// reads and it is parseable.
pub uninterp spec fn grammar_accepted(g: tree_sitter::Language) -> bool;

/// Relies on `tree_sitter::Parser::new`: a parser with no language yet.
#[verifier::external_body]
pub(crate) fn new_parser() -> (r: tree_sitter::Parser)
    ensures
        parser_grammar(r) is None,
{
    tree_sitter::Parser::new()
}

/// Relies on `tree_sitter::Parser::set_language`: it succeeds exactly when
/// the grammar's version and parseability are accepted, and leaves the
/// parser as it was when it fails.
#[verifier::external_body]
pub(crate) fn parser_set_language(parser: &mut tree_sitter::Parser, language: &tree_sitter::Language) -> (r: bool)
    ensures
        r == grammar_accepted(*language),
        r ==> parser_grammar(*final(parser)) == Some(*language),
        !r ==> parser_grammar(*final(parser)) == parser_grammar(*old(parser)),
{
    parser.set_language(language).is_ok()
}

/// Relies on `tree_sitter::Parser::parse` with no previous tree: `None`
/// only for a parser with no language (no timeout or cancellation is ever
/// set here); otherwise the parse of the text with the parser's grammar.
#[verifier::external_body]
pub(crate) fn parser_parse(parser: &mut tree_sitter::Parser, text: &str) -> (r: Option<tree_sitter::Tree>)
    ensures
        parser_grammar(*final(parser)) == parser_grammar(*old(parser)),
        r is Some <==> parser_grammar(*old(parser)) is Some,
        r is Some ==> tree_nodes(r->0) == parsed_nodes(parser_grammar(*old(parser))->0, text@),
{
    parser.parse(text, None)
}

/// Relies on `tree_sitter::Node::descendant_count` of the root: how many
/// nodes the tree holds.
#[verifier::external_body]
pub(crate) fn tree_node_count(tree: &tree_sitter::Tree) -> (r: usize)
    ensures
        r == tree_nodes(*tree).len(),
{
    tree.root_node().descendant_count()
}

/// Relies on `tree_sitter::TreeCursor::goto_descendant` from the root and
/// the node's `is_error`, `is_missing` and `start_position`: the facts of
/// the node with that descendant index.
#[verifier::external_body]
pub(crate) fn tree_node_facts(tree: &tree_sitter::Tree, index: usize) -> (r: (bool, bool, usize))
    requires
        index < tree_nodes(*tree).len(),
    ensures
        r == tree_nodes(*tree)[index as int],
{
    let mut cursor = tree.walk();
    cursor.goto_descendant(index);
    let node = cursor.node();
    (node.is_error(), node.is_missing(), node.start_position().row)
}

/// The byte span of the smallest named node of a tree that spans a byte
/// range, if any.
pub uninterp spec fn named_cover(t: tree_sitter::Tree, start: usize, end: usize) -> Option<(usize, usize)>;

/// The byte span of the smallest node of any kind of a tree that spans a
/// byte range, if any.
pub uninterp spec fn any_cover(t: tree_sitter::Tree, start: usize, end: usize) -> Option<(usize, usize)>;

/// Relies on `tree_sitter::Node::named_descendant_for_byte_range` from the
/// root: the smallest named node that spans the range, as its byte span.
#[verifier::external_body]
pub(crate) fn named_descendant_span(tree: &tree_sitter::Tree, start: usize, end: usize) -> (r: Option<(usize, usize)>)
    ensures
        r == named_cover(*tree, start, end),
{
    tree.root_node().named_descendant_for_byte_range(start, end).map(|n| (n.start_byte(), n.end_byte()))
}

/// Relies on `tree_sitter::Node::descendant_for_byte_range` from the root:
/// the smallest node, named or not, that spans the range, as its byte span.
#[verifier::external_body]
pub(crate) fn descendant_span(tree: &tree_sitter::Tree, start: usize, end: usize) -> (r: Option<(usize, usize)>)
    ensures
        r == any_cover(*tree, start, end),
{
    tree.root_node().descendant_for_byte_range(start, end).map(|n| (n.start_byte(), n.end_byte()))
}

/// Relies on `tree_sitter::Query::new`: compiles a query for a grammar,
/// `None` where the query text does not compile.
#[verifier::external_body]
pub(crate) fn compile_query(language: &tree_sitter::Language, source: &str) -> Option<tree_sitter::Query> {
    tree_sitter::Query::new(language, source).ok()
}

/// The capture names of a query, by capture index.
pub uninterp spec fn query_capture_names(q: tree_sitter::Query) -> Seq<Seq<char>>;

/// Every capture of every match of a query over a tree of a text, in the
/// order the cursor yields them: the capture index, the captured node's
/// byte span and its parent's byte span (none at the root).
pub uninterp spec fn query_capture_list(q: tree_sitter::Query, t: tree_sitter::Tree, text: Seq<char>) -> Seq<
    (u32, (usize, usize), Option<(usize, usize)>),
>;

/// Relies on `tree_sitter::Query::capture_names`: the name of a capture index.
#[verifier::external_body]
pub(crate) fn capture_name(query: &tree_sitter::Query, index: u32) -> (r: Option<String>)
    ensures
        r is Some <==> index < query_capture_names(*query).len(),
        r is Some ==> r->0@ == query_capture_names(*query)[index as int],
{
    query.capture_names().get(index as usize).map(|s| s.to_string())
}

/// Relies on `tree_sitter::QueryCursor::matches` run over the whole tree:
/// each capture's index, its node's byte span and the parent's byte span.
#[verifier::external_body]
pub(crate) fn query_captures(query: &tree_sitter::Query, tree: &tree_sitter::Tree, text: &str) -> (r: Vec<
    (u32, (usize, usize), Option<(usize, usize)>),
>)
    ensures
        r@ == query_capture_list(*query, *tree, text@),
{
    let mut cursor = tree_sitter::QueryCursor::new();
    let mut matches = cursor.matches(query, tree.root_node(), text.as_bytes());
    let mut out = Vec::new();
    while let Some(m) = matches.next() {
        for c in m.captures() {
            let parent = c.node.parent().map(|p| (p.start_byte(), p.end_byte()));
            out.push((c.index, (c.node.start_byte(), c.node.end_byte()), parent));
        }
    }
    out
}

} // verus!
