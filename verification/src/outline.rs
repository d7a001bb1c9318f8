//! The outline of a syntax tree: one line for each node, in document order,
//! indented by the node's depth.

use crate::syntax::{Position, SyntaxNode};
use crate::text::{decimal, push_decimal};
use vstd::prelude::*;
use vstd::string::*;

verus! {

/// A position as it is written in the outline: row and column in
/// parentheses.
pub open spec fn place(position: Position) -> Seq<char> {
    "("@ + decimal(position.row as nat) + ", "@ + decimal(position.column as nat) + ")"@
}

/// The line of one node: the margin, then the node's label and the places
/// where it starts and ends.
pub open spec fn node_line(node: SyntaxNode, margin: Seq<char>) -> Seq<char> {
    margin + "{Node "@ + node.kind@ + " "@ + place(node.start) + " - "@ + place(node.end) + "}"@
}

/// The lines of the tree below `node`: its own line, then the lines of its
/// children from left to right, each two spaces further in.
pub open spec fn tree_lines(node: SyntaxNode, margin: Seq<char>) -> Seq<Seq<char>>
    decreases node, 1nat, 0nat,
{
    seq![node_line(node, margin)] + children_lines(node, margin + "  "@, node.children@.len())
}

/// The lines of the trees below the first `upto` children of `node`.
pub open spec fn children_lines(node: SyntaxNode, margin: Seq<char>, upto: nat) -> Seq<Seq<char>>
    decreases node, 0nat, upto,
{
    if upto == 0 || upto > node.children@.len() {
        seq![]
    } else {
        children_lines(node, margin, (upto - 1) as nat) + tree_lines(
            node.children@[upto - 1],
            margin,
        )
    }
}

fn push_place(line: &mut String, position: Position)
    ensures
        final(line)@ == old(line)@ + place(position),
{
    line.append("(");
    push_decimal(line, position.row as u64);
    line.append(", ");
    push_decimal(line, position.column as u64);
    line.append(")");
    proof {
        assert(final(line)@ =~= old(line)@ + place(position));
    }
}

fn print_node(node: &SyntaxNode, margin: &str, lines: &mut Vec<String>)
    ensures
        final(lines).deep_view() == old(lines).deep_view() + tree_lines(*node, margin@),
    decreases node,
{
    let mut line = String::from_str(margin);
    line.append("{Node ");
    line.append(node.kind.as_str());
    line.append(" ");
    push_place(&mut line, node.start);
    line.append(" - ");
    push_place(&mut line, node.end);
    line.append("}");
    proof {
        assert(line@ =~= node_line(*node, margin@));
    }
    lines.push(line);
    let mut deeper = String::from_str(margin);
    deeper.append("  ");
    proof {
        assert(lines.deep_view() =~= old(lines).deep_view() + (seq![node_line(*node, margin@)]
            + children_lines(*node, deeper@, 0)));
    }
    let mut i: usize = 0;
    while i < node.children.len()
        invariant
            i <= node.children@.len(),
            deeper@ == margin@ + "  "@,
            lines.deep_view() == old(lines).deep_view() + (seq![node_line(*node, margin@)]
                + children_lines(*node, deeper@, i as nat)),
        decreases node.children@.len() - i,
    {
        let ghost so_far = lines.deep_view();
        print_node(&node.children[i], deeper.as_str(), lines);
        proof {
            assert(lines.deep_view() == so_far + tree_lines(node.children@[i as int], deeper@));
            assert(lines.deep_view() =~= old(lines).deep_view() + (seq![
                node_line(*node, margin@),
            ] + children_lines(*node, deeper@, (i + 1) as nat)));
        }
        i += 1;
    }
}

/// Writes the outline of the tree below `root`, line by line.
pub fn traverse_tree(root: &SyntaxNode) -> (lines: Vec<String>)
    ensures
        lines.deep_view() == tree_lines(*root, Seq::empty()),
{
    let mut lines: Vec<String> = Vec::new();
    proof {
        reveal_strlit("");
        assert(""@ =~= Seq::<char>::empty());
    }
    print_node(root, "", &mut lines);
    proof {
        assert(lines.deep_view() =~= tree_lines(*root, Seq::empty()));
    }
    lines
}

} // verus!
