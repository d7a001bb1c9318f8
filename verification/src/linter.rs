//! The traversal engine: a walk over the syntax tree in document order that
//! runs the rules at every node.

use crate::diagnostic::{Diagnostic, DiagnosticView};
use crate::order::{lemma_document_order, lines_ascend, rows_in_order};
use crate::rewrite::{excise, lemma_excise_one_span, SourceBuffer};
use crate::rules::{node_diagnostics, node_fixes, validate_node};
use crate::syntax::{kind_of, NodeKind, SyntaxNode};
use vstd::prelude::*;

verus! {

/// Everything the rules report in the tree below `node`, in the order of the
/// walk: the node's own reports first, then those of its children from left
/// to right. `parent` is the category of the node's parent, if it has one.
pub open spec fn tree_diagnostics(node: SyntaxNode, parent: Option<NodeKind>, source: Seq<u8>) -> Seq<
    DiagnosticView,
>
    decreases node, 1nat, 0nat,
{
    node_diagnostics(node, parent, source) + children_diagnostics(
        node,
        source,
        node.children@.len(),
    )
}

/// Everything the rules report in the trees below the first `upto` children
/// of `node`.
pub open spec fn children_diagnostics(node: SyntaxNode, source: Seq<u8>, upto: nat) -> Seq<
    DiagnosticView,
>
    decreases node, 0nat, upto,
{
    if upto == 0 || upto > node.children@.len() {
        seq![]
    } else {
        children_diagnostics(node, source, (upto - 1) as nat) + tree_diagnostics(
            node.children@[upto - 1],
            Some(kind_of(node.kind@)),
            source,
        )
    }
}

/// The spans that the rules strike out in the tree below `node`, in the
/// order of the walk.
pub open spec fn tree_fixes(node: SyntaxNode, source: Seq<u8>) -> Seq<(int, int)>
    decreases node, 1nat, 0nat,
{
    node_fixes(node, source) + children_fixes(node, source, node.children@.len())
}

/// The spans that the rules strike out in the trees below the first `upto`
/// children of `node`.
pub open spec fn children_fixes(node: SyntaxNode, source: Seq<u8>, upto: nat) -> Seq<(int, int)>
    decreases node, 0nat, upto,
{
    if upto == 0 || upto > node.children@.len() {
        seq![]
    } else {
        children_fixes(node, source, (upto - 1) as nat) + tree_fixes(
            node.children@[upto - 1],
            source,
        )
    }
}

/// Walks the tree below `node`, the node first and then its children from
/// left to right, and runs the rules at every node.
fn visit(
    node: &SyntaxNode,
    parent: Option<NodeKind>,
    issues: &mut Vec<Diagnostic>,
    source: &[u8],
    buffer: &mut SourceBuffer,
)
    ensures
        final(issues).deep_view() == old(issues).deep_view() + tree_diagnostics(
            *node,
            parent,
            source@,
        ),
        final(buffer).source() == old(buffer).source(),
        final(buffer).removed() == old(buffer).removed() + tree_fixes(*node, source@),
    decreases node,
{
    validate_node(node, parent, source, issues, buffer);
    let kind = node.category();
    proof {
        assert(issues.deep_view() =~= old(issues).deep_view() + (node_diagnostics(
            *node,
            parent,
            source@,
        ) + children_diagnostics(*node, source@, 0)));
        assert(buffer.removed() =~= old(buffer).removed() + (node_fixes(*node, source@)
            + children_fixes(*node, source@, 0)));
    }
    let mut i: usize = 0;
    while i < node.children.len()
        invariant
            i <= node.children@.len(),
            kind == kind_of(node.kind@),
            buffer.source() == old(buffer).source(),
            issues.deep_view() == old(issues).deep_view() + (node_diagnostics(
                *node,
                parent,
                source@,
            ) + children_diagnostics(*node, source@, i as nat)),
            buffer.removed() == old(buffer).removed() + (node_fixes(*node, source@)
                + children_fixes(*node, source@, i as nat)),
        decreases node.children@.len() - i,
    {
        let ghost reports = issues.deep_view();
        let ghost spans = buffer.removed();
        visit(&node.children[i], Some(kind), issues, source, buffer);
        proof {
            let child = node.children@[i as int];
            assert(issues.deep_view() == reports + tree_diagnostics(child, Some(kind), source@));
            assert(buffer.removed() == spans + tree_fixes(child, source@));
            assert(issues.deep_view() =~= old(issues).deep_view() + (node_diagnostics(
                *node,
                parent,
                source@,
            ) + children_diagnostics(*node, source@, (i + 1) as nat)));
            assert(buffer.removed() =~= old(buffer).removed() + (node_fixes(*node, source@)
                + children_fixes(*node, source@, (i + 1) as nat)));
        }
        i += 1;
    }
}

/// Checks the tree below `node`, taken as a root: every report goes to the
/// end of `issues`, in the order in which the walk meets its node, and the
/// span of every auto-fixable violation is struck out of `buffer`.
pub fn check_for_issues(
    node: &SyntaxNode,
    issues: &mut Vec<Diagnostic>,
    source: &[u8],
    buffer: &mut SourceBuffer,
)
    ensures
        final(issues).deep_view() == old(issues).deep_view() + tree_diagnostics(
            *node,
            None,
            source@,
        ),
        final(buffer).source() == old(buffer).source(),
        final(buffer).removed() == old(buffer).removed() + tree_fixes(*node, source@),
{
    visit(node, None, issues, source, buffer);
}

/// What a pass over a tree and its source hands back: the reports of the
/// tree in the order of the walk, and the source without the spans that the
/// rules strike out.
pub open spec fn is_outcome(
    root: SyntaxNode,
    source: Seq<u8>,
    reports: Seq<DiagnosticView>,
    text: Seq<u8>,
) -> bool {
    &&& reports == tree_diagnostics(root, None, source)
    &&& text == excise(source, tree_fixes(root, source))
}

/// Lints a source text with its syntax tree: the reports in document order,
/// and the source without the spans of the auto-fixable violations. Where
/// the rows of the tree are in order, the lines of the reports never go
/// back.
pub fn lint(root: &SyntaxNode, source: &[u8]) -> (outcome: (Vec<Diagnostic>, Vec<u8>))
    ensures
        is_outcome(*root, source@, outcome.0.deep_view(), outcome.1@),
        rows_in_order(*root) ==> lines_ascend(outcome.0.deep_view()),
{
    let mut issues: Vec<Diagnostic> = Vec::new();
    let mut buffer = SourceBuffer::new(source);
    check_for_issues(root, &mut issues, source, &mut buffer);
    proof {
        assert(issues.deep_view() =~= tree_diagnostics(*root, None, source@));
        assert(buffer.removed() =~= tree_fixes(*root, source@));
        if rows_in_order(*root) {
            lemma_document_order(*root, source@);
        }
    }
    let rewritten = buffer.to_bytes();
    (issues, rewritten)
}

/// A pass decides by the tree and the source alone: two passes over the same
/// tree and source report the same, in the same order, and leave the same
/// text.
pub proof fn lemma_passes_agree(
    root: SyntaxNode,
    source: Seq<u8>,
    first: (Seq<DiagnosticView>, Seq<u8>),
    second: (Seq<DiagnosticView>, Seq<u8>),
)
    requires
        is_outcome(root, source, first.0, first.1),
        is_outcome(root, source, second.0, second.1),
    ensures
        first == second,
{
}

/// Every one of the spans lies inside a source of `length` bytes.
pub open spec fn spans_inside(spans: Seq<(int, int)>, length: int) -> bool {
    forall|k: int| 0 <= k < spans.len() ==> 0 <= (#[trigger] spans[k]).0 <= spans[k].1 <= length
}

/// Every span that the rules strike out lies inside the source.
pub proof fn lemma_fixes_lie_inside(node: SyntaxNode, source: Seq<u8>)
    ensures
        spans_inside(tree_fixes(node, source), source.len() as int),
    decreases node, 1nat, 0nat,
{
    let own = node_fixes(node, source);
    let below = children_fixes(node, source, node.children@.len());
    lemma_children_fixes_lie_inside(node, source, node.children@.len());
    assert forall|k: int| 0 <= k < (own + below).len() implies 0 <= (#[trigger] (own + below)[k]).0
        <= (own + below)[k].1 <= source.len() by {
        if k < own.len() {
            assert((own + below)[k] == own[k]);
        } else {
            assert((own + below)[k] == below[k - own.len()]);
        }
    }
}

proof fn lemma_children_fixes_lie_inside(node: SyntaxNode, source: Seq<u8>, upto: nat)
    ensures
        spans_inside(children_fixes(node, source, upto), source.len() as int),
    decreases node, 0nat, upto,
{
    if !(upto == 0 || upto > node.children@.len()) {
        let before = children_fixes(node, source, (upto - 1) as nat);
        let last = tree_fixes(node.children@[upto - 1], source);
        lemma_children_fixes_lie_inside(node, source, (upto - 1) as nat);
        lemma_fixes_lie_inside(node.children@[upto - 1], source);
        assert forall|k: int| 0 <= k < (before + last).len() implies 0 <= (#[trigger] (before
            + last)[k]).0 <= (before + last)[k].1 <= source.len() by {
            if k < before.len() {
                assert((before + last)[k] == before[k]);
            } else {
                assert((before + last)[k] == last[k - before.len()]);
            }
        }
    }
}

/// A pass in which the rules strike out one span leaves the text before the
/// span followed by the text after it: no other byte moves or changes.
pub proof fn lemma_one_fix_is_local(
    root: SyntaxNode,
    source: Seq<u8>,
    reports: Seq<DiagnosticView>,
    text: Seq<u8>,
    start: int,
    end: int,
)
    requires
        is_outcome(root, source, reports, text),
        tree_fixes(root, source) == seq![(start, end)],
    ensures
        0 <= start <= end <= source.len(),
        text == source.subrange(0, start) + source.subrange(end, source.len() as int),
{
    lemma_fixes_lie_inside(root, source);
    assert(tree_fixes(root, source)[0] == (start, end));
    lemma_excise_one_span(source, start, end);
}

} // verus!
