//! The syntax tree the linter reads: a plain, owned tree of nodes with a
//! grammar label, a byte span, start and end positions and ordered children.

use crate::text::same_text;
use vstd::prelude::*;

verus! {

/// A place in the source text. Rows and columns count from zero.
#[derive(Clone, Copy, Debug, PartialEq, Eq, Structural)]
pub struct Position {
    pub row: u32,
    pub column: u32,
}

/// One node of a syntax tree.
///
/// `kind` is the label of the node's grammar category, `field` the name under
/// which the parent holds this node, if it has one. The bytes of the node are
/// those of the source from `start_byte` up to `end_byte`.
#[derive(Debug, PartialEq, Eq)]
pub struct SyntaxNode {
    pub kind: String,
    pub field: Option<String>,
    pub start_byte: usize,
    pub end_byte: usize,
    pub start: Position,
    pub end: Position,
    pub children: Vec<SyntaxNode>,
}

/// The grammar categories that the rules tell apart. Every other label is
/// `Other`, and no rule looks at such a node.
#[derive(Clone, Copy, Debug, PartialEq, Eq, Structural)]
pub enum NodeKind {
    FunctionDefinition,
    Declaration,
    InitDeclarator,
    Identifier,
    TypeQualifier,
    UsingDeclaration,
    GotoStatement,
    ForStatement,
    IfStatement,
    WhileStatement,
    ForRangeLoop,
    CallExpression,
    PreprocInclude,
    Other,
}

/// The category that a grammar label stands for.
pub open spec fn kind_of(label: Seq<char>) -> NodeKind {
    if label == "function_definition"@ {
        NodeKind::FunctionDefinition
    } else if label == "declaration"@ {
        NodeKind::Declaration
    } else if label == "init_declarator"@ {
        NodeKind::InitDeclarator
    } else if label == "identifier"@ {
        NodeKind::Identifier
    } else if label == "type_qualifier"@ {
        NodeKind::TypeQualifier
    } else if label == "using_declaration"@ {
        NodeKind::UsingDeclaration
    } else if label == "goto_statement"@ {
        NodeKind::GotoStatement
    } else if label == "for_statement"@ {
        NodeKind::ForStatement
    } else if label == "if_statement"@ {
        NodeKind::IfStatement
    } else if label == "while_statement"@ {
        NodeKind::WhileStatement
    } else if label == "for_range_loop"@ {
        NodeKind::ForRangeLoop
    } else if label == "call_expression"@ {
        NodeKind::CallExpression
    } else if label == "preproc_include"@ {
        NodeKind::PreprocInclude
    } else {
        NodeKind::Other
    }
}

/// The node is held by its parent under the field `name`.
pub open spec fn labelled(node: SyntaxNode, name: Seq<char>) -> bool {
    node.field matches Some(field) && field@ == name
}

/// The node is held under the field `field`, or under none where there is
/// none.
pub open spec fn held_under(node: SyntaxNode, field: Option<&str>) -> bool {
    match field {
        Some(name) => labelled(node, name@),
        None => node.field is None,
    }
}

/// The tree below `node` has `depth` levels at most, the node's own level
/// counted.
pub open spec fn no_deeper_than(node: SyntaxNode, depth: nat) -> bool
    decreases node,
{
    &&& depth > 0
    &&& forall|i: int|
        0 <= i < node.children@.len() ==> no_deeper_than(
            #[trigger] node.children@[i],
            (depth - 1) as nat,
        )
}

/// The index of the first of `children`, from `from` on, that is held under
/// the field `name`.
pub open spec fn first_labelled(children: Seq<SyntaxNode>, name: Seq<char>, from: int) -> Option<
    int,
>
    decreases children.len() - from,
{
    if from < 0 || from >= children.len() {
        None
    } else if labelled(children[from], name) {
        Some(from)
    } else {
        first_labelled(children, name, from + 1)
    }
}

/// The first child of `node` that it holds under the field `name`.
pub open spec fn child_by_field(node: SyntaxNode, name: Seq<char>) -> Option<SyntaxNode> {
    match first_labelled(node.children@, name, 0) {
        Some(index) => Some(node.children@[index]),
        None => None,
    }
}

impl NodeKind {
    /// Classifies a grammar label.
    pub fn of(label: &str) -> (kind: NodeKind)
        ensures
            kind == kind_of(label@),
    {
        if same_text(label, "function_definition") {
            NodeKind::FunctionDefinition
        } else if same_text(label, "declaration") {
            NodeKind::Declaration
        } else if same_text(label, "init_declarator") {
            NodeKind::InitDeclarator
        } else if same_text(label, "identifier") {
            NodeKind::Identifier
        } else if same_text(label, "type_qualifier") {
            NodeKind::TypeQualifier
        } else if same_text(label, "using_declaration") {
            NodeKind::UsingDeclaration
        } else if same_text(label, "goto_statement") {
            NodeKind::GotoStatement
        } else if same_text(label, "for_statement") {
            NodeKind::ForStatement
        } else if same_text(label, "if_statement") {
            NodeKind::IfStatement
        } else if same_text(label, "while_statement") {
            NodeKind::WhileStatement
        } else if same_text(label, "for_range_loop") {
            NodeKind::ForRangeLoop
        } else if same_text(label, "call_expression") {
            NodeKind::CallExpression
        } else if same_text(label, "preproc_include") {
            NodeKind::PreprocInclude
        } else {
            NodeKind::Other
        }
    }
}

impl SyntaxNode {
    /// The category of this node.
    pub fn category(&self) -> (kind: NodeKind)
        ensures
            kind == kind_of(self.kind@),
    {
        NodeKind::of(self.kind.as_str())
    }

    /// Looks up the first child held under the field `name`.
    pub fn child_by_field_name(&self, name: &str) -> (child: Option<&SyntaxNode>)
        ensures
            match child_by_field(*self, name@) {
                Some(found) => child == Some(&found),
                None => child is None,
            },
    {
        let mut at: usize = 0;
        while at < self.children.len()
            invariant
                at <= self.children@.len(),
                first_labelled(self.children@, name@, 0) == first_labelled(
                    self.children@,
                    name@,
                    at as int,
                ),
            decreases self.children@.len() - at,
        {
            let child = &self.children[at];
            let held = match &child.field {
                Some(field) => same_text(field.as_str(), name),
                None => false,
            };
            if held {
                return Some(child);
            }
            at += 1;
        }
        None
    }
}

} // verus!
