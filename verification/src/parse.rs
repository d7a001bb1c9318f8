//! The way in from source text: the C++ grammar of tree-sitter parses the
//! text, and its tree is copied node by node into a `SyntaxNode`.

use crate::order::{rows_in_order, rows_ordered};
use crate::syntax::{held_under, no_deeper_than, Position, SyntaxNode};
use tree_sitter::{Language, LanguageError, Node, Parser, Tree, TreeCursor};
use vstd::prelude::*;
use vstd::string::*;

verus! {

#[verifier::external_type_specification]
#[verifier::external_body]
pub struct ExParser(Parser);

#[verifier::external_type_specification]
#[verifier::external_body]
pub struct ExLanguage(Language);

#[verifier::external_type_specification]
#[verifier::external_body]
pub struct ExLanguageError(LanguageError);

#[verifier::external_type_specification]
#[verifier::external_body]
pub struct ExTree(Tree);

#[verifier::external_type_specification]
#[verifier::external_body]
pub struct ExNode<'tree>(Node<'tree>);

#[verifier::external_type_specification]
#[verifier::external_body]
pub struct ExTreeCursor<'cursor>(TreeCursor<'cursor>);

/// `tree_sitter_cpp::language` hands out the C++ grammar. Nothing is claimed
/// of it.
pub assume_specification[ tree_sitter_cpp::language ]() -> (language: Language)
;

/// `Parser::new` makes a parser without a grammar. Nothing is claimed of it.
pub assume_specification[ Parser::new ]() -> (parser: Parser)
;

/// `Parser::set_language` gives the parser a grammar, or refuses one made
/// for another version of the library. Nothing is claimed of which it does.
pub assume_specification[ Parser::set_language ](
    parser: &mut Parser,
    language: &Language,
) -> (outcome: Result<(), LanguageError>)
;

/// `Parser::parse`, without an earlier tree. Nothing is claimed of the tree,
/// nor that there is one.
#[verifier::external_body]
fn parse_text(parser: &mut Parser, code: &str) -> (tree: Option<Tree>) {
    parser.parse(code, None)
}

/// `Tree::root_node` hands out the root of a tree. Nothing is claimed of it.
pub assume_specification<'tree>[ Tree::root_node ](tree: &'tree Tree) -> (root: Node<'tree>)
;

/// `Node::kind` gives the label of the node's grammar category. Nothing is
/// claimed of it.
pub assume_specification<'tree>[ Node::<'tree>::kind ](node: &Node<'tree>) -> (label: &'static str)
;

/// `Node::start_byte` gives the offset at which the node starts. Nothing is
/// claimed of it.
pub assume_specification<'tree>[ Node::<'tree>::start_byte ](node: &Node<'tree>) -> (offset: usize)
;

/// `Node::end_byte` gives the offset at which the node ends. Nothing is
/// claimed of it.
pub assume_specification<'tree>[ Node::<'tree>::end_byte ](node: &Node<'tree>) -> (offset: usize)
;

/// `Node::start_position`, as a pair of row and column. Nothing is claimed
/// of either.
#[verifier::external_body]
fn start_of(node: &Node) -> (place: (usize, usize)) {
    let point = node.start_position();
    (point.row, point.column)
}

/// `Node::end_position`, as a pair of row and column. Nothing is claimed of
/// either.
#[verifier::external_body]
fn end_of(node: &Node) -> (place: (usize, usize)) {
    let point = node.end_position();
    (point.row, point.column)
}

/// `Node::child_count` gives the number of the node's children. Nothing is
/// claimed of it.
pub assume_specification<'tree>[ Node::<'tree>::child_count ](node: &Node<'tree>) -> (count: usize)
;

/// `Node::descendant_count` gives the number of nodes in the tree below the
/// node, itself included. Nothing is claimed of it.
pub assume_specification<'tree>[ Node::<'tree>::descendant_count ](node: &Node<'tree>) -> (count:
    usize)
;

/// `Node::walk` makes a cursor that stands on the node. Nothing is claimed
/// of it.
pub assume_specification<'tree>[ Node::<'tree>::walk ](node: &Node<'tree>) -> (cursor: TreeCursor<
    'tree,
>)
;

/// `TreeCursor::node` hands out the node the cursor stands on. Nothing is
/// claimed of it.
pub assume_specification<'cursor>[ TreeCursor::<'cursor>::node ](
    cursor: &TreeCursor<'cursor>,
) -> (node: Node<'cursor>)
;

/// `TreeCursor::field_name` gives the name of the field under which the
/// parent holds the node the cursor stands on. Nothing is claimed of it.
pub assume_specification<'cursor>[ TreeCursor::<'cursor>::field_name ](
    cursor: &TreeCursor<'cursor>,
) -> (name: Option<&'static str>)
;

/// `TreeCursor::goto_first_child` moves the cursor to the first child and
/// says whether there was one. Nothing is claimed of its answer.
pub assume_specification<'cursor>[ TreeCursor::<'cursor>::goto_first_child ](
    cursor: &mut TreeCursor<'cursor>,
) -> (moved: bool)
;

/// `TreeCursor::goto_next_sibling` moves the cursor to the next sibling and
/// says whether there was one. Nothing is claimed of its answer.
pub assume_specification<'cursor>[ TreeCursor::<'cursor>::goto_next_sibling ](
    cursor: &mut TreeCursor<'cursor>,
) -> (moved: bool)
;

/// Why a source text has no syntax tree.
#[derive(Clone, Copy, Debug, PartialEq, Eq, Structural)]
pub enum ParseError {
    /// The parser refused the C++ grammar.
    GrammarRefused,
    /// The parser handed back no tree.
    NothingParsed,
    /// The tree cannot be used: it is deeper than it has nodes, one of its
    /// positions is out of range, or its rows are out of order.
    OutOfRange,
}

/// A place of the parser as a `Position`, where row and column fit.
fn position(place: (usize, usize)) -> (position: Option<Position>)
    ensures
        match position {
            Some(p) => p.row == place.0 && p.column == place.1,
            None => place.0 > u32::MAX || place.1 > u32::MAX,
        },
{
    if place.0 <= u32::MAX as usize && place.1 <= u32::MAX as usize {
        Some(Position { row: place.0 as u32, column: place.1 as u32 })
    } else {
        None
    }
}

/// Makes a node of what the parser says of it: its label, the field under
/// which its parent holds it, its byte span, the places where it starts and
/// ends, and its children. There is no node where a row or a column does not
/// fit.
pub fn node_from_parts(
    kind: &str,
    field: Option<&str>,
    span: (usize, usize),
    start: (usize, usize),
    end: (usize, usize),
    children: Vec<SyntaxNode>,
) -> (node: Option<SyntaxNode>)
    ensures
        node is Some <==> start.0 <= u32::MAX && start.1 <= u32::MAX && end.0 <= u32::MAX && end.1
            <= u32::MAX,
        node matches Some(made) ==> {
            &&& made.kind@ == kind@
            &&& held_under(made, field)
            &&& made.start_byte == span.0
            &&& made.end_byte == span.1
            &&& made.start.row == start.0
            &&& made.start.column == start.1
            &&& made.end.row == end.0
            &&& made.end.column == end.1
            &&& made.children == children
        },
{
    let start = match position(start) {
        Some(start) => start,
        None => {
            return None;
        },
    };
    let end = match position(end) {
        Some(end) => end,
        None => {
            return None;
        },
    };
    let field = match field {
        Some(name) => Some(String::from_str(name)),
        None => None,
    };
    Some(
        SyntaxNode {
            kind: String::from_str(kind),
            field,
            start_byte: span.0,
            end_byte: span.1,
            start,
            end,
            children,
        },
    )
}

/// Copies the tree below `node`, which its parent holds under `field`. The
/// copy is held under the same field and goes `depth` levels deep at most;
/// it is given up where the tree goes deeper or a position does not fit.
fn copy_tree(node: Node, field: Option<&'static str>, depth: usize) -> (copy: Option<SyntaxNode>)
    ensures
        depth == 0 ==> copy is None,
        copy matches Some(tree) ==> held_under(tree, field) && no_deeper_than(tree, depth as nat),
    decreases depth,
{
    if depth == 0 {
        return None;
    }
    let mut children: Vec<SyntaxNode> = Vec::new();
    let mut cursor = node.walk();
    let mut left = node.child_count();
    let mut more = cursor.goto_first_child();
    while more && left > 0
        invariant
            depth > 0,
            forall|i: int|
                0 <= i < children@.len() ==> no_deeper_than(
                    #[trigger] children@[i],
                    (depth - 1) as nat,
                ),
        decreases left,
    {
        match copy_tree(cursor.node(), cursor.field_name(), depth - 1) {
            Some(child) => {
                children.push(child);
            },
            None => {
                return None;
            },
        }
        more = cursor.goto_next_sibling();
        left -= 1;
    }
    node_from_parts(
        node.kind(),
        field,
        (node.start_byte(), node.end_byte()),
        start_of(&node),
        end_of(&node),
        children,
    )
}

/// Decides on the copy of a parsed tree: it is handed on where there is one
/// and its rows are laid out as in a text, and refused otherwise.
pub fn accept_tree(copy: Option<SyntaxNode>) -> (outcome: Result<SyntaxNode, ParseError>)
    ensures
        match copy {
            Some(tree) => if rows_in_order(tree) {
                outcome == Ok::<SyntaxNode, ParseError>(tree)
            } else {
                outcome == Err::<SyntaxNode, ParseError>(ParseError::OutOfRange)
            },
            None => outcome == Err::<SyntaxNode, ParseError>(ParseError::OutOfRange),
        },
{
    match copy {
        Some(tree) => {
            if rows_ordered(&tree) {
                Ok(tree)
            } else {
                Err(ParseError::OutOfRange)
            }
        },
        None => Err(ParseError::OutOfRange),
    }
}

/// Parses C++ source text into a syntax tree. Text that is no valid C++
/// still has a tree, which marks what the parser could not read. Whether
/// there is a tree is up to the parser, and so is what it holds; a tree that
/// comes back is a root, held under no field, with its rows laid out as in a
/// text.
pub fn convert_into_tree(code: &str) -> (tree: Result<SyntaxNode, ParseError>)
    ensures
        tree matches Ok(root) ==> root.field is None && rows_in_order(root),
{
    let mut parser = Parser::new();
    let language = tree_sitter_cpp::language();
    match parser.set_language(&language) {
        Ok(_) => {},
        Err(_) => {
            return Err(ParseError::GrammarRefused);
        },
    }
    match parse_text(&mut parser, code) {
        Some(tree) => {
            let root = tree.root_node();
            accept_tree(copy_tree(root, None, root.descendant_count()))
        },
        None => Err(ParseError::NothingParsed),
    }
}

} // verus!
