//! The rule set: for each grammar category the checks that run when the walk
//! visits a node of that category, and what they report.

use crate::diagnostic::{Diagnostic, DiagnosticView, Rule};
use crate::naming::{all_uppercase, camel_case, is_all_uppercase, is_camel_case};
use crate::rewrite::SourceBuffer;
use crate::syntax::{child_by_field, kind_of, NodeKind, SyntaxNode};
use crate::text::{contains, contains_bytes, decimal, push_decimal, read_span, same_text, span_text};
use vstd::prelude::*;
use vstd::string::*;
use vstd::utf8::*;

verus! {

/// The text of a node: the bytes of its span, where the span lies inside
/// the source and holds valid UTF-8.
pub open spec fn node_text(node: SyntaxNode, source: Seq<u8>) -> Option<Seq<u8>> {
    span_text(source, node.start_byte as int, node.end_byte as int)
}

/// The line a report on `node` points at.
pub open spec fn line_of(node: SyntaxNode) -> nat {
    (node.start.row + 1) as nat
}

/// A report whose message is `text` as it stands.
pub open spec fn plain(rule: Rule, node: SyntaxNode, text: Seq<char>) -> DiagnosticView {
    DiagnosticView { message: text, line: line_of(node), rule }
}

/// A report whose message is `text` followed by the line.
pub open spec fn located(rule: Rule, node: SyntaxNode, text: Seq<char>) -> DiagnosticView {
    DiagnosticView {
        message: text + ": line "@ + decimal(line_of(node)),
        line: line_of(node),
        rule,
    }
}

/// A report on a name: the name stands between `before` and `after`, and the
/// line follows.
pub open spec fn named(
    rule: Rule,
    node: SyntaxNode,
    before: Seq<char>,
    name: Seq<char>,
    after: Seq<char>,
) -> DiagnosticView {
    located(rule, node, before + name + after)
}

/// Appends a report to the list.
fn raise(issues: &mut Vec<Diagnostic>, report: Diagnostic)
    ensures
        final(issues).deep_view() == old(issues).deep_view().push(report@),
{
    issues.push(report);
    proof {
        assert(final(issues).deep_view() =~= old(issues).deep_view().push(report@));
    }
}

/// Reads the text of a node out of the source.
pub fn text_of<'a>(node: &SyntaxNode, source: &'a [u8]) -> (text: Option<&'a str>)
    ensures
        match node_text(*node, source@) {
            Some(bytes) => text matches Some(s) && s.spec_bytes() == bytes && s@ == decode_utf8(
                bytes,
            ),
            None => text is None,
        },
{
    read_span(source, node.start_byte, node.end_byte)
}

fn plain_report(rule: Rule, node: &SyntaxNode, text: &str) -> (report: Diagnostic)
    ensures
        report@ == plain(rule, *node, text@),
{
    Diagnostic::new(rule, node.start.row, String::from_str(text))
}

fn located_report(rule: Rule, node: &SyntaxNode, text: &str) -> (report: Diagnostic)
    ensures
        report@ == located(rule, *node, text@),
{
    let mut message = String::from_str(text);
    message.append(": line ");
    push_decimal(&mut message, node.start.row as u64 + 1);
    Diagnostic::new(rule, node.start.row, message)
}

fn named_report(rule: Rule, node: &SyntaxNode, before: &str, name: &str, after: &str) -> (report:
    Diagnostic)
    ensures
        report@ == named(rule, *node, before@, name@, after@),
{
    let mut message = String::from_str(before);
    message.append(name);
    message.append(after);
    message.append(": line ");
    push_decimal(&mut message, node.start.row as u64 + 1);
    Diagnostic::new(rule, node.start.row, message)
}

/// The name that a child of a declaration declares: the text of its first
/// child, where the child is an init-declarator that starts with an
/// identifier.
pub open spec fn declared_name(child: SyntaxNode, source: Seq<u8>) -> Option<Seq<u8>> {
    if kind_of(child.kind@) == NodeKind::InitDeclarator && child.children@.len() > 0 && kind_of(
        child.children@[0].kind@,
    ) == NodeKind::Identifier {
        node_text(child.children@[0], source)
    } else {
        None
    }
}

/// The child is the qualifier `const`.
pub open spec fn marks_constant(child: SyntaxNode, source: Seq<u8>) -> bool {
    &&& kind_of(child.kind@) == NodeKind::TypeQualifier
    &&& node_text(child, source) matches Some(text)
    &&& decode_utf8(text) == "const"@
}

/// The declaration carries the qualifier `const`.
pub open spec fn is_constant(node: SyntaxNode, source: Seq<u8>) -> bool {
    exists|i: int|
        0 <= i < node.children@.len() && marks_constant(#[trigger] node.children@[i], source)
}

/// What the entry point rule reports at a function definition: the function
/// whose declarator names `main`.
pub open spec fn entry_point_reports(node: SyntaxNode, source: Seq<u8>) -> Seq<DiagnosticView> {
    if entry_point_name(node, source) matches Some(text) && decode_utf8(text) == "main"@ {
        seq![plain(Rule::EntryPointName, node, "Function named 'main' found"@)]
    } else {
        seq![]
    }
}

/// The text of the name of a function definition: that of the declarator of
/// its declarator.
pub open spec fn entry_point_name(node: SyntaxNode, source: Seq<u8>) -> Option<Seq<u8>> {
    match child_by_field(node, "declarator"@) {
        Some(outer) => match child_by_field(outer, "declarator"@) {
            Some(inner) => node_text(inner, source),
            None => None,
        },
        None => None,
    }
}

/// What the constant rule reports on one child of a declaration.
pub open spec fn constant_report(node: SyntaxNode, child: SyntaxNode, source: Seq<u8>) -> Seq<
    DiagnosticView,
> {
    match declared_name(child, source) {
        Some(text) => if all_uppercase(decode_utf8(text)) {
            seq![]
        } else {
            seq![
                named(
                    Rule::ConstantNaming,
                    node,
                    "Const '"@,
                    decode_utf8(text),
                    "' is not all in uppercase"@,
                ),
            ]
        },
        None => seq![],
    }
}

/// What the constant rule reports on the first `upto` children of a
/// declaration, child by child.
pub open spec fn constant_reports(node: SyntaxNode, source: Seq<u8>, upto: int) -> Seq<
    DiagnosticView,
>
    decreases upto,
{
    if upto <= 0 || upto > node.children@.len() {
        seq![]
    } else {
        constant_reports(node, source, upto - 1) + constant_report(
            node,
            node.children@[upto - 1],
            source,
        )
    }
}

/// What the camel case rule reports on one child of a declaration.
pub open spec fn variable_report(node: SyntaxNode, child: SyntaxNode, source: Seq<u8>) -> Seq<
    DiagnosticView,
> {
    match declared_name(child, source) {
        Some(text) => if camel_case(decode_utf8(text)) {
            seq![]
        } else {
            seq![
                named(
                    Rule::VariableNaming,
                    node,
                    "Variable '"@,
                    decode_utf8(text),
                    "' is not in camel case"@,
                ),
            ]
        },
        None => seq![],
    }
}

/// What the camel case rule reports on the first `upto` children of a
/// declaration, child by child.
pub open spec fn variable_reports(node: SyntaxNode, source: Seq<u8>, upto: int) -> Seq<
    DiagnosticView,
>
    decreases upto,
{
    if upto <= 0 || upto > node.children@.len() {
        seq![]
    } else {
        variable_reports(node, source, upto - 1) + variable_report(
            node,
            node.children@[upto - 1],
            source,
        )
    }
}

/// What the naming rule reports at a declaration: a constant's names must be
/// in uppercase, all others in camel case.
pub open spec fn naming_reports(node: SyntaxNode, source: Seq<u8>) -> Seq<DiagnosticView> {
    if is_constant(node, source) {
        constant_reports(node, source, node.children@.len() as int)
    } else {
        variable_reports(node, source, node.children@.len() as int)
    }
}

/// A declaration directly below a `for` statement declares a loop counter,
/// and the short name rule lets it pass.
pub open spec fn in_loop_header(parent: Option<NodeKind>) -> bool {
    parent == Some(NodeKind::ForStatement)
}

/// What the short name rule reports on one child of a declaration: a name
/// of fewer than three bytes.
pub open spec fn short_name_report(
    node: SyntaxNode,
    child: SyntaxNode,
    parent: Option<NodeKind>,
    source: Seq<u8>,
) -> Seq<DiagnosticView> {
    match declared_name(child, source) {
        Some(text) => if text.len() < 3 && !in_loop_header(parent) {
            seq![
                named(Rule::ShortName, node, "Variable '"@, decode_utf8(text), "' is too short"@),
            ]
        } else {
            seq![]
        },
        None => seq![],
    }
}

/// What the short name rule reports on the first `upto` children of a
/// declaration, child by child.
pub open spec fn short_name_reports(
    node: SyntaxNode,
    parent: Option<NodeKind>,
    source: Seq<u8>,
    upto: int,
) -> Seq<DiagnosticView>
    decreases upto,
{
    if upto <= 0 || upto > node.children@.len() {
        seq![]
    } else {
        short_name_reports(node, parent, source, upto - 1) + short_name_report(
            node,
            node.children@[upto - 1],
            parent,
            source,
        )
    }
}

/// The text of the node mentions the namespace `std` as a whole.
pub open spec fn imports_std(node: SyntaxNode, source: Seq<u8>) -> bool {
    node_text(node, source) matches Some(text) && contains(text, encode_utf8("namespace std"@))
}

/// What the namespace rule reports at a using-declaration.
pub open spec fn namespace_reports(node: SyntaxNode, source: Seq<u8>) -> Seq<DiagnosticView> {
    if imports_std(node, source) {
        seq![located(Rule::NamespaceImport, node, "Using namespace std is not recommended"@)]
    } else {
        seq![]
    }
}

/// The text holds one of the control flow keywords followed by a space and
/// an opening parenthesis.
pub open spec fn keyword_spaced(text: Seq<u8>) -> bool {
    ||| contains(text, encode_utf8("for ("@))
    ||| contains(text, encode_utf8("if ("@))
    ||| contains(text, encode_utf8("while ("@))
}

/// What the spacing rule reports on the text of a control flow statement.
pub open spec fn spacing_reports(node: SyntaxNode, text: Seq<u8>) -> Seq<DiagnosticView> {
    if keyword_spaced(text) {
        seq![]
    } else {
        seq![
            located(
                Rule::ControlFlowSpacing,
                node,
                "Control flow statement should have a space before '('"@,
            ),
        ]
    }
}

/// What the loop rule reports on the text of a `for` statement: a loop
/// written with `for (` and without a colon might be a range-based one.
pub open spec fn range_reports(node: SyntaxNode, text: Seq<u8>) -> Seq<DiagnosticView> {
    if contains(text, encode_utf8("for ("@)) && !contains(text, encode_utf8(":"@)) {
        seq![located(Rule::RangeBasedFor, node, "Consider using range-based for loop"@)]
    } else {
        seq![]
    }
}

/// What the rules report at a control flow statement. `counting` says that
/// the statement is a `for` statement, to which the loop rule applies too.
pub open spec fn control_flow_reports(node: SyntaxNode, counting: bool, source: Seq<u8>) -> Seq<
    DiagnosticView,
> {
    match node_text(node, source) {
        Some(text) => if counting {
            spacing_reports(node, text) + range_reports(node, text)
        } else {
            spacing_reports(node, text)
        },
        None => seq![],
    }
}

/// What the call rule reports at a call expression.
pub open spec fn call_reports(node: SyntaxNode, source: Seq<u8>) -> Seq<DiagnosticView> {
    if node_text(node, source) matches Some(text) && contains(text, encode_utf8(" ("@)) {
        seq![
            located(Rule::CallSpacing, node, "Function call should not have a space before '('"@),
        ]
    } else {
        seq![]
    }
}

/// What the header rule reports at an include directive.
pub open spec fn header_reports(node: SyntaxNode, source: Seq<u8>) -> Seq<DiagnosticView> {
    if node_text(node, source) matches Some(text) && contains(
        text,
        encode_utf8("<bits/stdc++.h>"@),
    ) {
        seq![
            located(
                Rule::UmbrellaHeader,
                node,
                "#include <bits/stdc++.h> should not be used in real programs"@,
            ),
        ]
    } else {
        seq![]
    }
}

/// Everything the rules report at one node, in the fixed order of the rules.
/// `parent` is the category of the node's parent, if it has one.
pub open spec fn node_diagnostics(node: SyntaxNode, parent: Option<NodeKind>, source: Seq<u8>) -> Seq<
    DiagnosticView,
> {
    match kind_of(node.kind@) {
        NodeKind::FunctionDefinition => entry_point_reports(node, source),
        NodeKind::Declaration => naming_reports(node, source) + short_name_reports(
            node,
            parent,
            source,
            node.children@.len() as int,
        ),
        NodeKind::UsingDeclaration => namespace_reports(node, source),
        NodeKind::GotoStatement => seq![
            plain(Rule::Goto, node, "Usage of 'goto' statement found"@),
        ],
        NodeKind::ForStatement => control_flow_reports(node, true, source),
        NodeKind::IfStatement | NodeKind::WhileStatement | NodeKind::ForRangeLoop => control_flow_reports(
            node,
            false,
            source,
        ),
        NodeKind::CallExpression => call_reports(node, source),
        NodeKind::PreprocInclude => header_reports(node, source),
        _ => seq![],
    }
}

/// The spans that the rules strike out at one node: the whole span of a
/// using-declaration that imports the namespace `std`.
pub open spec fn node_fixes(node: SyntaxNode, source: Seq<u8>) -> Seq<(int, int)> {
    if kind_of(node.kind@) == NodeKind::UsingDeclaration && imports_std(node, source) {
        seq![(node.start_byte as int, node.end_byte as int)]
    } else {
        seq![]
    }
}

/// Reads the name that a child of a declaration declares.
fn name_declared_by<'a>(child: &SyntaxNode, source: &'a [u8]) -> (name: Option<&'a str>)
    ensures
        match declared_name(*child, source@) {
            Some(bytes) => name matches Some(s) && s.spec_bytes() == bytes && s@ == decode_utf8(
                bytes,
            ),
            None => name is None,
        },
{
    if child.category() == NodeKind::InitDeclarator && child.children.len() > 0
        && child.children[0].category() == NodeKind::Identifier {
        text_of(&child.children[0], source)
    } else {
        None
    }
}

/// Looks for the qualifier `const` among the children of a declaration.
pub fn declares_constant(node: &SyntaxNode, source: &[u8]) -> (constant: bool)
    ensures
        constant == is_constant(*node, source@),
{
    let mut i: usize = 0;
    while i < node.children.len()
        invariant
            i <= node.children@.len(),
            forall|j: int| 0 <= j < i ==> !marks_constant(#[trigger] node.children@[j], source@),
        decreases node.children@.len() - i,
    {
        let child = &node.children[i];
        if child.category() == NodeKind::TypeQualifier {
            match text_of(child, source) {
                Some(text) => {
                    if same_text(text, "const") {
                        return true;
                    }
                },
                None => {},
            }
        }
        i += 1;
    }
    false
}

/// The entry point rule: reports a function definition whose name is `main`.
pub fn check_for_entry_point(node: &SyntaxNode, source: &[u8], issues: &mut Vec<Diagnostic>)
    ensures
        final(issues).deep_view() == old(issues).deep_view() + entry_point_reports(
            *node,
            source@,
        ),
{
    let name = match node.child_by_field_name("declarator") {
        Some(outer) => match outer.child_by_field_name("declarator") {
            Some(inner) => text_of(inner, source),
            None => None,
        },
        None => None,
    };
    let found = match name {
        Some(text) => same_text(text, "main"),
        None => false,
    };
    if found {
        raise(issues, plain_report(Rule::EntryPointName, node, "Function named 'main' found"));
    }
    proof {
        assert(final(issues).deep_view() =~= old(issues).deep_view() + entry_point_reports(
            *node,
            source@,
        ));
    }
}

/// The short name rule: reports each name of a declaration that is shorter
/// than three bytes, unless the declaration stands in the header of a `for`
/// statement.
pub fn check_for_short_variable_name(
    node: &SyntaxNode,
    parent: Option<NodeKind>,
    source: &[u8],
    issues: &mut Vec<Diagnostic>,
)
    ensures
        final(issues).deep_view() == old(issues).deep_view() + short_name_reports(
            *node,
            parent,
            source@,
            node.children@.len() as int,
        ),
{
    let exempt = match parent {
        Some(kind) => kind == NodeKind::ForStatement,
        None => false,
    };
    proof {
        assert(issues.deep_view() =~= old(issues).deep_view() + short_name_reports(
            *node,
            parent,
            source@,
            0,
        ));
    }
    let mut i: usize = 0;
    while i < node.children.len()
        invariant
            i <= node.children@.len(),
            exempt == in_loop_header(parent),
            issues.deep_view() == old(issues).deep_view() + short_name_reports(
                *node,
                parent,
                source@,
                i as int,
            ),
        decreases node.children@.len() - i,
    {
        let ghost so_far = issues.deep_view();
        let child = &node.children[i];
        match name_declared_by(child, source) {
            Some(name) => {
                if name.len() < 3 && !exempt {
                    raise(
                        issues,
                        named_report(Rule::ShortName, node, "Variable '", name, "' is too short"),
                    );
                }
            },
            None => {},
        }
        proof {
            assert(issues.deep_view() =~= so_far + short_name_report(
                *node,
                node.children@[i as int],
                parent,
                source@,
            ));
            assert(issues.deep_view() =~= old(issues).deep_view() + short_name_reports(
                *node,
                parent,
                source@,
                i + 1,
            ));
        }
        i += 1;
    }
}

/// The camel case rule: reports each name of a declaration that is not in
/// lower camel case.
pub fn validate_variable_camel_case_name(
    node: &SyntaxNode,
    source: &[u8],
    issues: &mut Vec<Diagnostic>,
)
    ensures
        final(issues).deep_view() == old(issues).deep_view() + variable_reports(
            *node,
            source@,
            node.children@.len() as int,
        ),
{
    proof {
        assert(issues.deep_view() =~= old(issues).deep_view() + variable_reports(
            *node,
            source@,
            0,
        ));
    }
    let mut i: usize = 0;
    while i < node.children.len()
        invariant
            i <= node.children@.len(),
            issues.deep_view() == old(issues).deep_view() + variable_reports(
                *node,
                source@,
                i as int,
            ),
        decreases node.children@.len() - i,
    {
        let ghost so_far = issues.deep_view();
        let child = &node.children[i];
        match name_declared_by(child, source) {
            Some(name) => {
                if !is_camel_case(name) {
                    raise(
                        issues,
                        named_report(
                            Rule::VariableNaming,
                            node,
                            "Variable '",
                            name,
                            "' is not in camel case",
                        ),
                    );
                }
            },
            None => {},
        }
        proof {
            assert(issues.deep_view() =~= so_far + variable_report(
                *node,
                node.children@[i as int],
                source@,
            ));
            assert(issues.deep_view() =~= old(issues).deep_view() + variable_reports(
                *node,
                source@,
                i + 1,
            ));
        }
        i += 1;
    }
}

/// The constant rule: reports each name of a constant declaration that is
/// not written in uppercase letters only.
pub fn validate_constant_uppercase_name(
    node: &SyntaxNode,
    source: &[u8],
    issues: &mut Vec<Diagnostic>,
)
    ensures
        final(issues).deep_view() == old(issues).deep_view() + constant_reports(
            *node,
            source@,
            node.children@.len() as int,
        ),
{
    proof {
        assert(issues.deep_view() =~= old(issues).deep_view() + constant_reports(
            *node,
            source@,
            0,
        ));
    }
    let mut i: usize = 0;
    while i < node.children.len()
        invariant
            i <= node.children@.len(),
            issues.deep_view() == old(issues).deep_view() + constant_reports(
                *node,
                source@,
                i as int,
            ),
        decreases node.children@.len() - i,
    {
        let ghost so_far = issues.deep_view();
        let child = &node.children[i];
        match name_declared_by(child, source) {
            Some(name) => {
                if !is_all_uppercase(name) {
                    raise(
                        issues,
                        named_report(
                            Rule::ConstantNaming,
                            node,
                            "Const '",
                            name,
                            "' is not all in uppercase",
                        ),
                    );
                }
            },
            None => {},
        }
        proof {
            assert(issues.deep_view() =~= so_far + constant_report(
                *node,
                node.children@[i as int],
                source@,
            ));
            assert(issues.deep_view() =~= old(issues).deep_view() + constant_reports(
                *node,
                source@,
                i + 1,
            ));
        }
        i += 1;
    }
}

/// The spacing rule: reports a control flow statement in whose text no
/// keyword is followed by a space and a parenthesis.
pub fn detect_missing_space_before_control_flow_parenthesis(
    for_text: &str,
    issues: &mut Vec<Diagnostic>,
    node: &SyntaxNode,
)
    ensures
        final(issues).deep_view() == old(issues).deep_view() + spacing_reports(
            *node,
            for_text.spec_bytes(),
        ),
{
    let text = for_text.as_bytes();
    if !(contains_bytes(text, "for (".as_bytes()) || contains_bytes(text, "if (".as_bytes())
        || contains_bytes(text, "while (".as_bytes())) {
        raise(
            issues,
            located_report(
                Rule::ControlFlowSpacing,
                node,
                "Control flow statement should have a space before '('",
            ),
        );
    }
    proof {
        assert(final(issues).deep_view() =~= old(issues).deep_view() + spacing_reports(
            *node,
            for_text.spec_bytes(),
        ));
    }
}

/// The loop rule: suggests a range-based loop for a `for` statement that is
/// written with `for (` and without a colon.
pub fn suggest_range_based_for_loop(for_text: &str, issues: &mut Vec<Diagnostic>, node: &SyntaxNode)
    ensures
        final(issues).deep_view() == old(issues).deep_view() + range_reports(
            *node,
            for_text.spec_bytes(),
        ),
{
    let text = for_text.as_bytes();
    if contains_bytes(text, "for (".as_bytes()) && !contains_bytes(text, ":".as_bytes()) {
        raise(
            issues,
            located_report(Rule::RangeBasedFor, node, "Consider using range-based for loop"),
        );
    }
    proof {
        assert(final(issues).deep_view() =~= old(issues).deep_view() + range_reports(
            *node,
            for_text.spec_bytes(),
        ));
    }
}

/// Runs every rule that applies to `node`, in their fixed order: the
/// reports go to the end of `issues`, and the span of an auto-fixable
/// violation is struck out of `buffer`.
pub fn validate_node(
    node: &SyntaxNode,
    parent: Option<NodeKind>,
    source: &[u8],
    issues: &mut Vec<Diagnostic>,
    buffer: &mut SourceBuffer,
)
    ensures
        final(issues).deep_view() == old(issues).deep_view() + node_diagnostics(
            *node,
            parent,
            source@,
        ),
        final(buffer).source() == old(buffer).source(),
        final(buffer).removed() == old(buffer).removed() + node_fixes(*node, source@),
{
    let kind = node.category();
    proof {
        assert(buffer.removed() =~= old(buffer).removed() + Seq::<(int, int)>::empty());
        assert(issues.deep_view() =~= old(issues).deep_view() + Seq::<DiagnosticView>::empty());
    }
    match kind {
        NodeKind::FunctionDefinition => {
            check_for_entry_point(node, source, issues);
        },
        NodeKind::Declaration => {
            if declares_constant(node, source) {
                validate_constant_uppercase_name(node, source, issues);
            } else {
                validate_variable_camel_case_name(node, source, issues);
            }
            check_for_short_variable_name(node, parent, source, issues);
            proof {
                assert(final(issues).deep_view() =~= old(issues).deep_view() + node_diagnostics(
                    *node,
                    parent,
                    source@,
                ));
            }
        },
        NodeKind::UsingDeclaration => {
            let flagged = match text_of(node, source) {
                Some(text) => contains_bytes(text.as_bytes(), "namespace std".as_bytes()),
                None => false,
            };
            if flagged {
                raise(
                    issues,
                    located_report(
                        Rule::NamespaceImport,
                        node,
                        "Using namespace std is not recommended",
                    ),
                );
                buffer.remove_span(node.start_byte, node.end_byte);
            }
            proof {
                assert(final(issues).deep_view() =~= old(issues).deep_view() + node_diagnostics(
                    *node,
                    parent,
                    source@,
                ));
                assert(final(buffer).removed() =~= old(buffer).removed() + node_fixes(
                    *node,
                    source@,
                ));
            }
        },
        NodeKind::GotoStatement => {
            raise(issues, plain_report(Rule::Goto, node, "Usage of 'goto' statement found"));
            proof {
                assert(final(issues).deep_view() =~= old(issues).deep_view() + node_diagnostics(
                    *node,
                    parent,
                    source@,
                ));
            }
        },
        NodeKind::ForStatement => {
            match text_of(node, source) {
                Some(text) => {
                    detect_missing_space_before_control_flow_parenthesis(text, issues, node);
                    suggest_range_based_for_loop(text, issues, node);
                },
                None => {},
            }
            proof {
                assert(final(issues).deep_view() =~= old(issues).deep_view() + node_diagnostics(
                    *node,
                    parent,
                    source@,
                ));
            }
        },
        NodeKind::IfStatement | NodeKind::WhileStatement | NodeKind::ForRangeLoop => {
            match text_of(node, source) {
                Some(text) => {
                    detect_missing_space_before_control_flow_parenthesis(text, issues, node);
                },
                None => {},
            }
        },
        NodeKind::CallExpression => {
            let flagged = match text_of(node, source) {
                Some(text) => contains_bytes(text.as_bytes(), " (".as_bytes()),
                None => false,
            };
            if flagged {
                raise(
                    issues,
                    located_report(
                        Rule::CallSpacing,
                        node,
                        "Function call should not have a space before '('",
                    ),
                );
            }
            proof {
                assert(final(issues).deep_view() =~= old(issues).deep_view() + node_diagnostics(
                    *node,
                    parent,
                    source@,
                ));
            }
        },
        NodeKind::PreprocInclude => {
            let flagged = match text_of(node, source) {
                Some(text) => contains_bytes(text.as_bytes(), "<bits/stdc++.h>".as_bytes()),
                None => false,
            };
            if flagged {
                raise(
                    issues,
                    located_report(
                        Rule::UmbrellaHeader,
                        node,
                        "#include <bits/stdc++.h> should not be used in real programs",
                    ),
                );
            }
            proof {
                assert(final(issues).deep_view() =~= old(issues).deep_view() + node_diagnostics(
                    *node,
                    parent,
                    source@,
                ));
            }
        },
        _ => {},
    }
}

} // verus!
