//! Syntax trees from tree-sitter, read node by node in pre-order.
//!
//! A parsed tree is read as the sequence of all its nodes in pre-order
//! (tree-sitter's descendant order), each with its depth below the root, so
//! the tree structure is recovered from the depths alone.
use vstd::prelude::*;

verus! {

/// The tree-sitter grammars the analyser can parse with.
#[derive(Debug, Clone, Copy, PartialEq, Eq, Structural)]
pub enum Grammar {
    Python,
    JavaScript,
    TypeScript,
    Tsx,
}

/// What a node is and where it hangs in the tree.
#[derive(Debug, PartialEq, Eq)]
pub struct NodeShape {
    /// The grammar's name for the node (`Node::kind`).
    pub kind: String,
    /// The field of its parent the node fills, if any.
    pub field: Option<String>,
    /// Number of ancestors.
    pub depth: u32,
    pub named: bool,
    pub error: bool,
    pub missing: bool,
}

/// Where a node lies in the source: UTF-8 byte offsets and zero-based
/// rows and columns.
#[derive(Debug, Clone, Copy, PartialEq, Eq, Structural)]
pub struct NodeSpan {
    pub start_byte: usize,
    pub end_byte: usize,
    pub start_row: usize,
    pub start_column: usize,
    pub end_row: usize,
    pub end_column: usize,
}

#[verifier::external_type_specification]
#[verifier::external_body]
pub struct ExTree(tree_sitter::Tree);

#[verifier::external_type_specification]
#[verifier::external_body]
pub struct ExTreeCursor<'a>(tree_sitter::TreeCursor<'a>);

/// A source text parsed with a grammar.
pub struct SyntaxTree {
    tree: tree_sitter::Tree,
    source: String,
    grammar: Grammar,
}

impl SyntaxTree {
    pub closed spec fn source(&self) -> Seq<char> {
        self.source@
    }

    pub closed spec fn grammar(&self) -> Grammar {
        self.grammar
    }
}

/// A position in a parsed tree, moved from node to node.
pub struct SyntaxCursor<'a> {
    cursor: tree_sitter::TreeCursor<'a>,
    tree: &'a SyntaxTree,
}

impl<'a> SyntaxCursor<'a> {
    pub closed spec fn source(&self) -> Seq<char> {
        self.tree.source()
    }

    pub closed spec fn grammar(&self) -> Grammar {
        self.tree.grammar()
    }
}

/// What `Parser::set_language` reports for the language of a grammar: the
/// text of its `LanguageError`, or nothing when the language is accepted.
pub uninterp spec fn grammar_error(grammar: Grammar) -> Option<Seq<char>>;

/// Number of nodes of the tree of `source` (`Node::descendant_count` of
/// the root).
pub uninterp spec fn syntax_node_count(source: Seq<char>, grammar: Grammar) -> nat;

/// The node at pre-order index `index` of the tree of `source`.
pub uninterp spec fn syntax_shape(source: Seq<char>, grammar: Grammar, index: int) -> NodeShape;

/// The span of the node at pre-order index `index` of the tree of `source`.
pub uninterp spec fn syntax_span(source: Seq<char>, grammar: Grammar, index: int) -> NodeSpan;

/// Parses `source` with `Parser::set_language` and `Parser::parse`.
///
/// Trusted: the parse fails exactly when `set_language` refuses the
/// grammar's language, with its error text; otherwise `parse` gives the
/// tree of this source and grammar (it gives none only without a language,
/// after a timeout or on a cancellation flag, and none of these is set).
#[verifier::external_body]
pub fn parse_syntax(source: &str, grammar: Grammar) -> (r: Result<Option<SyntaxTree>, String>)
    ensures
        (r is Err) == (grammar_error(grammar) is Some),
        r matches Err(e) ==> grammar_error(grammar) == Some(e@),
        grammar_error(grammar) is None ==> r matches Ok(Some(_)),
        r matches Ok(Some(t)) ==> t.source() == source@ && t.grammar() == grammar,
{
    let language: tree_sitter::Language = match grammar {
        Grammar::Python => tree_sitter_python::LANGUAGE.into(),
        Grammar::JavaScript => tree_sitter_javascript::LANGUAGE.into(),
        Grammar::TypeScript => tree_sitter_typescript::LANGUAGE_TYPESCRIPT.into(),
        Grammar::Tsx => tree_sitter_typescript::LANGUAGE_TSX.into(),
    };
    let mut parser = tree_sitter::Parser::new();
    parser.set_language(&language).map_err(|error| error.to_string())?;
    Ok(parser.parse(source, None).map(|tree| SyntaxTree { tree, source: source.to_owned(), grammar }))
}

/// `Node::descendant_count` of the root: every node of the tree, the root
/// included.
#[verifier::external_body]
pub fn node_count(tree: &SyntaxTree) -> (r: usize)
    ensures
        r == syntax_node_count(tree.source(), tree.grammar()),
        r >= 1,
{
    tree.tree.root_node().descendant_count()
}

/// `Tree::walk`: a cursor at the root.
#[verifier::external_body]
pub fn syntax_cursor<'a>(tree: &'a SyntaxTree) -> (r: SyntaxCursor<'a>)
    ensures
        r.source() == tree.source(),
        r.grammar() == tree.grammar(),
{
    SyntaxCursor { cursor: tree.tree.walk(), tree }
}

/// Moves to the node at pre-order index `index` (`goto_descendant`) and
/// reads its kind, field name, depth and flags.
///
/// Trusted: the result is the named node; in pre-order the root has depth
/// 0, every other node is below it, and each node is at most one level
/// below the node before it.
#[verifier::external_body]
pub fn node_shape(cursor: &mut SyntaxCursor, index: usize) -> (r: NodeShape)
    requires
        index < syntax_node_count(old(cursor).source(), old(cursor).grammar()),
    ensures
        final(cursor).source() == old(cursor).source(),
        final(cursor).grammar() == old(cursor).grammar(),
        r == syntax_shape(old(cursor).source(), old(cursor).grammar(), index as int),
        index == 0 ==> r.depth == 0,
        index > 0 ==> 1 <= r.depth <= syntax_shape(
            old(cursor).source(),
            old(cursor).grammar(),
            index - 1,
        ).depth + 1,
{
    cursor.cursor.goto_descendant(index);
    let node = cursor.cursor.node();
    NodeShape {
        kind: node.kind().to_owned(),
        field: cursor.cursor.field_name().map(str::to_owned),
        depth: cursor.cursor.depth(),
        named: node.is_named(),
        error: node.is_error(),
        missing: node.is_missing(),
    }
}

/// Moves to the node at pre-order index `index` and reads its byte range
/// and start and end points.
///
/// Trusted: the result is the named span.
#[verifier::external_body]
pub fn node_span(cursor: &mut SyntaxCursor, index: usize) -> (r: NodeSpan)
    requires
        index < syntax_node_count(old(cursor).source(), old(cursor).grammar()),
    ensures
        final(cursor).source() == old(cursor).source(),
        final(cursor).grammar() == old(cursor).grammar(),
        r == syntax_span(old(cursor).source(), old(cursor).grammar(), index as int),
{
    cursor.cursor.goto_descendant(index);
    let node = cursor.cursor.node();
    let (start, end) = (node.start_position(), node.end_position());
    NodeSpan {
        start_byte: node.start_byte(),
        end_byte: node.end_byte(),
        start_row: start.row,
        start_column: start.column,
        end_row: end.row,
        end_column: end.column,
    }
}

} // verus!
