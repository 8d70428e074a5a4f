//! The tree-sitter parser and the parts of its trees that the document
//! model reads. Trees, nodes and cursors stay opaque here: the document
//! copies what it needs out of them into its own node arena.

use vstd::prelude::*;
use crate::coords::TextPosition;
use tree_sitter::{Node, Parser, Tree, TreeCursor};

verus! {

#[verifier::external_type_specification]
#[verifier::external_body]
pub struct ExTree(Tree);

#[verifier::external_type_specification]
#[verifier::external_body]
pub struct ExNode<'a>(Node<'a>);

#[verifier::external_type_specification]
#[verifier::external_body]
pub struct ExTreeCursor<'a>(TreeCursor<'a>);

/// Relies on `tree_sitter::Parser` (`new`, `set_language`, `parse`) with
/// `tree_sitter_python::language()`: that grammar is of ABI version 14,
/// which the parser accepts (13 to 14), and with no timeout and no
/// cancellation flag set `parse` always gives a tree.
#[verifier::external_body]
pub(crate) fn parse_python(source: &str) -> (r: Option<Tree>)
    ensures
        r is Some,
{
    let mut parser = Parser::new();
    parser.set_language(&tree_sitter_python::language()).ok()?;
    parser.parse(source, None)
}

/// Relies on `tree_sitter::Parser` (`new`, `set_language`, `parse`) with
/// `tree_sitter_rust::language()`: that grammar is of ABI version 14,
/// which the parser accepts (13 to 14), and with no timeout and no
/// cancellation flag set `parse` always gives a tree.
#[verifier::external_body]
pub(crate) fn parse_rust(source: &str) -> (r: Option<Tree>)
    ensures
        r is Some,
{
    let mut parser = Parser::new();
    parser.set_language(&tree_sitter_rust::language()).ok()?;
    parser.parse(source, None)
}

/// Relies on `tree_sitter::Parser` (`new`, `set_language`, `parse`) with
/// `tree_sitter_go::language()`: that grammar is of ABI version 14, which
/// the parser accepts (13 to 14), and with no timeout and no cancellation
/// flag set `parse` always gives a tree.
#[verifier::external_body]
pub(crate) fn parse_go(source: &str) -> (r: Option<Tree>)
    ensures
        r is Some,
{
    let mut parser = Parser::new();
    parser.set_language(&tree_sitter_go::language()).ok()?;
    parser.parse(source, None)
}

/// Relies on `tree_sitter::Tree::clone`: a copy of the tree that is owned
/// on its own and shares the immutable nodes, so node identifiers agree.
#[verifier::external_body]
pub(crate) fn tree_copy(tree: &Tree) -> Tree {
    tree.clone()
}

/// Relies on `tree_sitter::Tree::root_node`.
#[verifier::external_body]
pub(crate) fn tree_root<'a>(tree: &'a Tree) -> Node<'a> {
    tree.root_node()
}

/// Relies on `tree_sitter::Tree::walk`: a cursor at the root.
#[verifier::external_body]
pub(crate) fn tree_walk<'a>(tree: &'a Tree) -> TreeCursor<'a> {
    tree.walk()
}

/// Relies on `tree_sitter::TreeCursor::node`: the node under the cursor.
#[verifier::external_body]
pub(crate) fn cursor_node<'a>(cursor: &TreeCursor<'a>) -> Node<'a> {
    cursor.node()
}

/// Relies on `tree_sitter::TreeCursor::field_name`: the field of the node
/// under the cursor.
#[verifier::external_body]
pub(crate) fn cursor_field<'a>(cursor: &TreeCursor<'a>) -> Option<String> {
    cursor.field_name().map(|f| f.to_string())
}

/// Relies on `tree_sitter::TreeCursor::goto_first_child`.
#[verifier::external_body]
pub(crate) fn cursor_first_child<'a>(cursor: &mut TreeCursor<'a>) -> bool {
    cursor.goto_first_child()
}

/// Relies on `tree_sitter::TreeCursor::goto_next_sibling`.
#[verifier::external_body]
pub(crate) fn cursor_next_sibling<'a>(cursor: &mut TreeCursor<'a>) -> bool {
    cursor.goto_next_sibling()
}

/// Relies on `tree_sitter::TreeCursor::goto_parent`.
#[verifier::external_body]
pub(crate) fn cursor_parent<'a>(cursor: &mut TreeCursor<'a>) -> bool {
    cursor.goto_parent()
}

/// Relies on `tree_sitter::Node::kind`: the node's grammar type.
#[verifier::external_body]
pub(crate) fn node_kind<'a>(node: &Node<'a>) -> String {
    node.kind().to_string()
}

/// Relies on `tree_sitter::Node::start_position`: row and byte column.
#[verifier::external_body]
pub(crate) fn node_start<'a>(node: &Node<'a>) -> TextPosition {
    let p = node.start_position();
    TextPosition { line: p.row as u32, character: p.column as u32 }
}

/// Relies on `tree_sitter::Node::end_position`: row and byte column.
#[verifier::external_body]
pub(crate) fn node_end<'a>(node: &Node<'a>) -> TextPosition {
    let p = node.end_position();
    TextPosition { line: p.row as u32, character: p.column as u32 }
}

/// Relies on `tree_sitter::Node::start_byte`.
#[verifier::external_body]
pub(crate) fn node_start_byte<'a>(node: &Node<'a>) -> usize {
    node.start_byte()
}

/// Relies on `tree_sitter::Node::end_byte`.
#[verifier::external_body]
pub(crate) fn node_end_byte<'a>(node: &Node<'a>) -> usize {
    node.end_byte()
}

/// Relies on `tree_sitter::Node::is_named`.
#[verifier::external_body]
pub(crate) fn node_is_named<'a>(node: &Node<'a>) -> bool {
    node.is_named()
}

/// Relies on `tree_sitter::Node::id`: an identifier unique within its tree.
#[verifier::external_body]
pub(crate) fn node_id<'a>(node: &Node<'a>) -> usize {
    node.id()
}

/// Relies on `tree_sitter::Node::descendant_count`: the nodes of the
/// subtree, the node itself included.
#[verifier::external_body]
pub(crate) fn node_descendant_count<'a>(node: &Node<'a>) -> usize {
    node.descendant_count()
}

/// Relies on `tree_sitter::Node::descendant_for_point_range`: the smallest
/// node under `node` that spans the range of rows and byte columns.
#[verifier::external_body]
pub(crate) fn node_for_points<'a>(node: &Node<'a>, start: TextPosition, end: TextPosition) -> Option<Node<'a>> {
    let s = tree_sitter::Point::new(start.line as usize, start.character as usize);
    let e = tree_sitter::Point::new(end.line as usize, end.character as usize);
    node.descendant_for_point_range(s, e)
}

} // verus!
