//! Parsing: the grammars of the supported languages, and the step from a parser's tree
//! to a [`SyntaxTree`] of plain values.

use vstd::prelude::*;
use crate::tree::{NodeView, SyntaxNode, SyntaxTree, TreeView};

verus! {

/// A grammar that sources can be parsed with.
#[derive(Debug, Clone, Copy, PartialEq, Eq, Structural)]
pub enum Grammar {
    Python,
    Rust,
    JavaScript,
    TypeScript,
    Tsx,
}

/// `tree_sitter::Tree`: a parser's tree, carried as it is.
#[verifier::external_type_specification]
#[verifier::external_body]
pub struct ExTree(tree_sitter::Tree);

/// The nodes that a parser's tree holds, in document order, the root first.
pub uninterp spec fn tree_nodes(tree: tree_sitter::Tree) -> Seq<NodeView>;

/// The nodes of the tree that the parser builds for `source` under `grammar`, or `None`
/// where it builds no tree.
pub uninterp spec fn parsed_nodes(grammar: Grammar, source: Seq<char>) -> Option<Seq<NodeView>>;

/// `tree_sitter::Parser::parse`, on a fresh parser that was given the language of
/// `grammar` by `Parser::set_language`. The tree depends on the grammar and the text
/// alone; the contract names its nodes and says nothing more of them. Where the
/// language is refused or no tree comes back, the result is `None`.
#[verifier::external_body]
fn parse_tree(grammar: Grammar, source: &str) -> (r: Option<tree_sitter::Tree>)
    ensures
        match r {
            Some(tree) => parsed_nodes(grammar, source@) == Some(tree_nodes(tree)),
            None => parsed_nodes(grammar, source@) is None,
        },
{
    let language: tree_sitter::Language = match grammar {
        Grammar::Python => tree_sitter_python::LANGUAGE.into(),
        Grammar::Rust => tree_sitter_rust::LANGUAGE.into(),
        Grammar::JavaScript => tree_sitter_javascript::LANGUAGE.into(),
        Grammar::TypeScript => tree_sitter_typescript::LANGUAGE_TYPESCRIPT.into(),
        Grammar::Tsx => tree_sitter_typescript::LANGUAGE_TSX.into(),
    };
    let mut parser = tree_sitter::Parser::new();
    parser.set_language(&language).ok()?;
    parser.parse(source, None)
}

/// `tree_sitter::Node::descendant_count` of the root: the number of nodes of the tree,
/// the root included.
#[verifier::external_body]
fn node_count(tree: &tree_sitter::Tree) -> (r: usize)
    ensures
        r == tree_nodes(*tree).len(),
{
    tree.root_node().descendant_count()
}

/// `tree_sitter::TreeCursor::goto_descendant` from the root, and what the cursor then
/// shows: the node with the given index in document order, with its kind, the field
/// it fills, its depth below the root, its byte range and its start position.
#[verifier::external_body]
fn node_at(tree: &tree_sitter::Tree, index: usize) -> (r: SyntaxNode)
    requires
        index < tree_nodes(*tree).len(),
    ensures
        r@ == tree_nodes(*tree)[index as int],
{
    let mut cursor = tree.walk();
    cursor.goto_descendant(index);
    let node = cursor.node();
    SyntaxNode {
        kind: node.kind().to_string(),
        field: cursor.field_name().map(String::from),
        depth: cursor.depth() as usize,
        start_byte: node.start_byte(),
        end_byte: node.end_byte(),
        row: node.start_position().row,
        column: node.start_position().column,
    }
}

/// The nodes of a parser's tree as plain values.
fn read_nodes(tree: &tree_sitter::Tree) -> (r: Vec<SyntaxNode>)
    ensures
        r.deep_view() == tree_nodes(*tree),
{
    let n = node_count(tree);
    let mut nodes: Vec<SyntaxNode> = Vec::new();
    let mut i: usize = 0;
    while i < n
        invariant
            n == tree_nodes(*tree).len(),
            0 <= i <= n,
            nodes.len() == i,
            forall|k: int| 0 <= k < i ==> nodes[k]@ == tree_nodes(*tree)[k],
        decreases n - i,
    {
        nodes.push(node_at(tree, i));
        i = i + 1;
    }
    assert(nodes.deep_view() =~= tree_nodes(*tree));
    nodes
}

/// The syntax tree of `source` under `grammar`: the parser's nodes over the source,
/// where the parser builds a tree and every node of it fits the source.
pub open spec fn parsed_tree(grammar: Grammar, source: Seq<char>) -> Option<TreeView> {
    match parsed_nodes(grammar, source) {
        Some(nodes) => {
            let tree = TreeView { source, nodes };
            if tree.fits() {
                Some(tree)
            } else {
                None
            }
        },
        None => None,
    }
}

/// Parses `source` with `grammar`.
pub fn parse_source(grammar: Grammar, source: &str) -> (r: Option<SyntaxTree>)
    ensures
        match r {
            Some(tree) => tree.wf() && parsed_tree(grammar, source@) == Some(tree@),
            None => parsed_tree(grammar, source@) is None,
        },
{
    match parse_tree(grammar, source) {
        Some(parsed) => SyntaxTree::new(source, read_nodes(&parsed)),
        None => None,
    }
}

} // verus!
