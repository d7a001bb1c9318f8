//! Document order: in a tree whose positions are laid out as in a text, the
//! reports of a pass come with lines that never go back.

use crate::diagnostic::DiagnosticView;
use crate::linter::{children_diagnostics, tree_diagnostics};
use crate::rules::{
    constant_reports, line_of, node_diagnostics, short_name_reports, variable_reports,
};
use crate::syntax::{kind_of, NodeKind, SyntaxNode};
use vstd::prelude::*;

verus! {

/// The rows of the tree below `node` are laid out as in a text: no node ends
/// before it starts, every child lies inside its parent, and each child
/// starts where the one before it has ended, or later.
pub open spec fn rows_in_order(node: SyntaxNode) -> bool
    decreases node,
{
    &&& node.start.row <= node.end.row
    &&& forall|i: int|
        0 <= i < node.children@.len() ==> {
            &&& node.start.row <= (#[trigger] node.children@[i]).start.row
            &&& node.children@[i].end.row <= node.end.row
            &&& rows_in_order(node.children@[i])
        }
    &&& forall|i: int, j: int|
        0 <= i < j < node.children@.len() ==> (#[trigger] node.children@[i]).end.row <= (
        #[trigger] node.children@[j]).start.row
}

/// Checks whether the rows of the tree below `node` are laid out as in a
/// text.
pub fn rows_ordered(node: &SyntaxNode) -> (ordered: bool)
    ensures
        ordered == rows_in_order(*node),
    decreases node,
{
    if node.start.row > node.end.row {
        return false;
    }
    let mut reached = node.start.row;
    let mut i: usize = 0;
    while i < node.children.len()
        invariant
            i <= node.children@.len(),
            node.start.row <= node.end.row,
            i > 0 ==> reached == node.children@[i - 1].end.row,
            forall|k: int|
                0 <= k < i ==> {
                    &&& node.start.row <= (#[trigger] node.children@[k]).start.row
                    &&& node.children@[k].end.row <= node.end.row
                    &&& node.children@[k].end.row <= reached
                    &&& rows_in_order(node.children@[k])
                },
            forall|a: int, b: int|
                0 <= a < b < i ==> (#[trigger] node.children@[a]).end.row <= (
                #[trigger] node.children@[b]).start.row,
        decreases node.children@.len() - i,
    {
        let child = &node.children[i];
        if i > 0 && reached > child.start.row {
            proof {
                assert(node.children@[i - 1].end.row > node.children@[i as int].start.row);
            }
            return false;
        }
        if node.start.row > child.start.row || child.end.row > node.end.row || !rows_ordered(
            child,
        ) {
            proof {
                assert(node.children@[i as int] == *child);
            }
            return false;
        }
        reached = child.end.row;
        i += 1;
    }
    true
}

/// The lines of the reports never go back.
pub open spec fn lines_ascend(reports: Seq<DiagnosticView>) -> bool {
    forall|a: int, b: int|
        0 <= a <= b < reports.len() ==> (#[trigger] reports[a]).line <= (#[trigger] reports[b]).line
}

/// Every report points at a line from `low` to `high`.
pub open spec fn lines_within(reports: Seq<DiagnosticView>, low: int, high: int) -> bool {
    forall|k: int| 0 <= k < reports.len() ==> low <= (#[trigger] reports[k]).line <= high
}

proof fn lemma_constant_reports_lines(node: SyntaxNode, source: Seq<u8>, upto: int)
    ensures
        lines_within(
            constant_reports(node, source, upto),
            line_of(node) as int,
            line_of(node) as int,
        ),
    decreases upto,
{
    if !(upto <= 0 || upto > node.children@.len()) {
        lemma_constant_reports_lines(node, source, upto - 1);
    }
}

proof fn lemma_variable_reports_lines(node: SyntaxNode, source: Seq<u8>, upto: int)
    ensures
        lines_within(
            variable_reports(node, source, upto),
            line_of(node) as int,
            line_of(node) as int,
        ),
    decreases upto,
{
    if !(upto <= 0 || upto > node.children@.len()) {
        lemma_variable_reports_lines(node, source, upto - 1);
    }
}

proof fn lemma_short_name_reports_lines(
    node: SyntaxNode,
    parent: Option<NodeKind>,
    source: Seq<u8>,
    upto: int,
)
    ensures
        lines_within(
            short_name_reports(node, parent, source, upto),
            line_of(node) as int,
            line_of(node) as int,
        ),
    decreases upto,
{
    if !(upto <= 0 || upto > node.children@.len()) {
        lemma_short_name_reports_lines(node, parent, source, upto - 1);
    }
}

/// Every report that the rules raise at a node points at the line on which
/// the node starts.
pub proof fn lemma_reports_point_at_node(
    node: SyntaxNode,
    parent: Option<NodeKind>,
    source: Seq<u8>,
)
    ensures
        lines_within(
            node_diagnostics(node, parent, source),
            line_of(node) as int,
            line_of(node) as int,
        ),
{
    let all = node.children@.len() as int;
    lemma_constant_reports_lines(node, source, all);
    lemma_variable_reports_lines(node, source, all);
    lemma_short_name_reports_lines(node, parent, source, all);
}

/// Two runs of ascending lines, the first below a bound and the second from
/// that bound on, ascend together.
proof fn lemma_joined_lines(
    first: Seq<DiagnosticView>,
    second: Seq<DiagnosticView>,
    low: int,
    middle: int,
    high: int,
)
    requires
        low <= middle <= high,
        lines_ascend(first),
        lines_ascend(second),
        lines_within(first, low, middle),
        lines_within(second, middle, high),
    ensures
        lines_ascend(first + second),
        lines_within(first + second, low, high),
{
    let joined = first + second;
    assert forall|k: int| 0 <= k < joined.len() implies low <= (#[trigger] joined[k]).line
        <= high by {
        if k < first.len() {
            assert(joined[k] == first[k]);
        } else {
            assert(joined[k] == second[k - first.len()]);
        }
    }
    assert forall|a: int, b: int| 0 <= a <= b < joined.len() implies (#[trigger] joined[a]).line
        <= (#[trigger] joined[b]).line by {
        if b < first.len() {
            assert(joined[a] == first[a] && joined[b] == first[b]);
        } else if a < first.len() {
            assert(joined[a] == first[a] && joined[b] == second[b - first.len()]);
        } else {
            assert(joined[a] == second[a - first.len()] && joined[b] == second[b - first.len()]);
        }
    }
}

/// In a tree whose rows are in order, the reports of the tree below a node
/// point at lines between the node's first and its last, and their lines
/// never go back.
pub proof fn lemma_tree_lines(node: SyntaxNode, parent: Option<NodeKind>, source: Seq<u8>)
    requires
        rows_in_order(node),
    ensures
        lines_ascend(tree_diagnostics(node, parent, source)),
        lines_within(
            tree_diagnostics(node, parent, source),
            node.start.row + 1,
            node.end.row + 1,
        ),
    decreases node, 1nat, 0nat,
{
    let own = node_diagnostics(node, parent, source);
    let below = children_diagnostics(node, source, node.children@.len());
    lemma_reports_point_at_node(node, parent, source);
    lemma_children_lines(node, source, node.children@.len());
    assert(lines_ascend(own));
    assert(lines_within(below, node.start.row + 1, node.end.row + 1));
    assert(lines_within(own, node.start.row + 1, node.start.row + 1));
    lemma_joined_lines(own, below, node.start.row + 1, node.start.row + 1, node.end.row + 1);
}

/// The same of the trees below the first `upto` children of a node: their
/// reports lie between the node's first line and the last line of the last
/// of these children.
pub proof fn lemma_children_lines(node: SyntaxNode, source: Seq<u8>, upto: nat)
    requires
        rows_in_order(node),
        upto <= node.children@.len(),
    ensures
        lines_ascend(children_diagnostics(node, source, upto)),
        lines_within(
            children_diagnostics(node, source, upto),
            node.start.row + 1,
            if upto == 0 {
                node.start.row + 1
            } else {
                node.children@[upto - 1].end.row + 1
            },
        ),
        lines_within(children_diagnostics(node, source, upto), node.start.row + 1, node.end.row + 1),
    decreases node, 0nat, upto,
{
    if upto > 0 {
        let child = node.children@[upto - 1];
        let parent = Some(kind_of(node.kind@));
        let before = children_diagnostics(node, source, (upto - 1) as nat);
        let last = tree_diagnostics(child, parent, source);
        lemma_children_lines(node, source, (upto - 1) as nat);
        lemma_tree_lines(child, parent, source);
        let middle = child.start.row + 1;
        assert(lines_within(before, node.start.row + 1, middle)) by {
            if upto - 1 > 0 {
                assert(node.children@[upto - 2].end.row <= node.children@[upto - 1].start.row);
            }
        }
        lemma_joined_lines(before, last, node.start.row + 1, middle, child.end.row + 1);
    }
}

/// Document order: where the rows of the tree are in order, the lines of the
/// reports of a pass never go back.
pub proof fn lemma_document_order(root: SyntaxNode, source: Seq<u8>)
    requires
        rows_in_order(root),
    ensures
        lines_ascend(tree_diagnostics(root, None, source)),
{
    lemma_tree_lines(root, None, source);
}

/// Document order of statements: of two children of the root, no report
/// from the tree below the earlier one points at a later line than a report
/// from the tree below the later one.
pub proof fn lemma_statements_in_order(
    root: SyntaxNode,
    source: Seq<u8>,
    earlier: int,
    later: int,
)
    requires
        rows_in_order(root),
        0 <= earlier < later < root.children@.len(),
    ensures
        forall|a: int, b: int|
            #![trigger
                tree_diagnostics(root.children@[earlier], Some(kind_of(root.kind@)), source)[a],
                tree_diagnostics(root.children@[later], Some(kind_of(root.kind@)), source)[b]
            ]
            0 <= a < tree_diagnostics(
                root.children@[earlier],
                Some(kind_of(root.kind@)),
                source,
            ).len() && 0 <= b < tree_diagnostics(
                root.children@[later],
                Some(kind_of(root.kind@)),
                source,
            ).len() ==> tree_diagnostics(
                root.children@[earlier],
                Some(kind_of(root.kind@)),
                source,
            )[a].line <= tree_diagnostics(
                root.children@[later],
                Some(kind_of(root.kind@)),
                source,
            )[b].line,
{
    let parent = Some(kind_of(root.kind@));
    lemma_tree_lines(root.children@[earlier], parent, source);
    lemma_tree_lines(root.children@[later], parent, source);
    assert(root.children@[earlier].end.row <= root.children@[later].start.row);
}

} // verus!
