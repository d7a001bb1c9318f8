use cpp_linter::diagnostic::{Diagnostic, Rule};
use cpp_linter::linter::{check_for_issues, lint};
use cpp_linter::rewrite::SourceBuffer;
use cpp_linter::rules::{
    check_for_entry_point, check_for_short_variable_name, declares_constant,
    detect_missing_space_before_control_flow_parenthesis, suggest_range_based_for_loop, text_of,
    validate_constant_uppercase_name, validate_node, validate_variable_camel_case_name,
};
use cpp_linter::syntax::{NodeKind, Position, SyntaxNode};

fn node(kind: &str, start_byte: usize, end_byte: usize, children: Vec<SyntaxNode>) -> SyntaxNode {
    SyntaxNode {
        kind: kind.to_string(),
        field: None,
        start_byte,
        end_byte,
        start: Position { row: 0, column: start_byte as u32 },
        end: Position { row: 0, column: end_byte as u32 },
        children,
    }
}

fn on_row(mut tree: SyntaxNode, row: u32) -> SyntaxNode {
    tree.start.row = row;
    tree.end.row = row;
    tree
}

fn under(mut tree: SyntaxNode, field: &str) -> SyntaxNode {
    tree.field = Some(field.to_string());
    tree
}

fn summary(issues: &[Diagnostic]) -> Vec<(Rule, u64, String)> {
    issues.iter().map(|issue| (issue.rule(), issue.line(), issue.message().to_string())).collect()
}

/// The tree of a declaration `<type> <name> = <value>;` written at the
/// start of `source`, with an optional qualifier in front.
fn declaration(source: &str, names: &[&str]) -> SyntaxNode {
    let mut children = Vec::new();
    if source.starts_with("const ") {
        children.push(node("type_qualifier", 0, 5, vec![node("const", 0, 5, vec![])]));
    }
    let mut from = 0;
    for name in names {
        let at = from + source[from..].find(name).unwrap();
        let end = at + name.len();
        children.push(node(
            "init_declarator",
            at,
            end + 4,
            vec![under(node("identifier", at, end, vec![]), "declarator")],
        ));
        from = end;
    }
    node("declaration", 0, source.len(), children)
}

#[test]
fn text_of_reads_the_span_of_the_node() {
    let source = b"goto end;";
    assert_eq!(text_of(&node("statement_identifier", 5, 8, vec![]), source), Some("end"));
    assert_eq!(text_of(&node("statement_identifier", 5, 10, vec![]), source), None);
}

#[test]
fn a_function_named_main_is_reported() {
    let source = b"int main() {}";
    let tree = node(
        "function_definition",
        0,
        13,
        vec![
            under(node("primitive_type", 0, 3, vec![]), "type"),
            under(
                node(
                    "function_declarator",
                    4,
                    10,
                    vec![
                        under(node("identifier", 4, 8, vec![]), "declarator"),
                        under(node("parameter_list", 8, 10, vec![]), "parameters"),
                    ],
                ),
                "declarator",
            ),
            under(node("compound_statement", 11, 13, vec![]), "body"),
        ],
    );
    let mut issues = Vec::new();
    check_for_entry_point(&tree, source, &mut issues);
    assert_eq!(
        summary(&issues),
        vec![(Rule::EntryPointName, 1, "Function named 'main' found".to_string())]
    );
}

#[test]
fn a_function_of_another_name_is_not_reported() {
    let source = b"int mainly() {}";
    let tree = node(
        "function_definition",
        0,
        15,
        vec![under(
            node(
                "function_declarator",
                4,
                12,
                vec![under(node("identifier", 4, 10, vec![]), "declarator")],
            ),
            "declarator",
        )],
    );
    let mut issues = Vec::new();
    check_for_entry_point(&tree, source, &mut issues);
    assert!(issues.is_empty());
}

#[test]
fn a_function_without_a_declarator_is_not_reported() {
    let source = b"int main() {}";
    let bare = node("function_definition", 0, 13, vec![node("identifier", 4, 8, vec![])]);
    let shallow = node(
        "function_definition",
        0,
        13,
        vec![under(node("identifier", 4, 8, vec![]), "declarator")],
    );
    let mut issues = Vec::new();
    check_for_entry_point(&bare, source, &mut issues);
    check_for_entry_point(&shallow, source, &mut issues);
    assert!(issues.is_empty());
}

#[test]
fn a_declaration_is_constant_where_it_holds_the_qualifier() {
    let constant = "const int maxSize = 10;";
    assert!(declares_constant(&declaration(constant, &["maxSize"]), constant.as_bytes()));
    let variable = "int maxSize = 10;";
    assert!(!declares_constant(&declaration(variable, &["maxSize"]), variable.as_bytes()));
    let other = "volatile int x = 0;";
    let tree = node("declaration", 0, 19, vec![node("type_qualifier", 0, 8, vec![])]);
    assert!(!declares_constant(&tree, other.as_bytes()));
}

#[test]
fn a_constant_that_is_not_in_uppercase_is_reported() {
    let source = "const int maxSize = 10;";
    let mut issues = Vec::new();
    validate_constant_uppercase_name(
        &on_row(declaration(source, &["maxSize"]), 2),
        source.as_bytes(),
        &mut issues,
    );
    assert_eq!(
        summary(&issues),
        vec![(
            Rule::ConstantNaming,
            3,
            "Const 'maxSize' is not all in uppercase: line 3".to_string()
        )]
    );
}

#[test]
fn a_constant_in_uppercase_passes() {
    let source = "const int MAXSIZE = 10;";
    let mut issues = Vec::new();
    validate_constant_uppercase_name(
        &declaration(source, &["MAXSIZE"]),
        source.as_bytes(),
        &mut issues,
    );
    assert!(issues.is_empty());
}

#[test]
fn a_constant_with_an_underscore_is_reported() {
    let source = "const int MAX_SIZE = 10;";
    let mut issues = Vec::new();
    validate_constant_uppercase_name(
        &declaration(source, &["MAX_SIZE"]),
        source.as_bytes(),
        &mut issues,
    );
    assert_eq!(
        summary(&issues),
        vec![(
            Rule::ConstantNaming,
            1,
            "Const 'MAX_SIZE' is not all in uppercase: line 1".to_string()
        )]
    );
}

#[test]
fn a_variable_that_is_not_in_camel_case_is_reported() {
    let source = "int my_var = 1, okName = 2, BadName = 3;";
    let mut issues = Vec::new();
    validate_variable_camel_case_name(
        &on_row(declaration(source, &["my_var", "okName", "BadName"]), 9),
        source.as_bytes(),
        &mut issues,
    );
    assert_eq!(
        summary(&issues),
        vec![
            (
                Rule::VariableNaming,
                10,
                "Variable 'my_var' is not in camel case: line 10".to_string()
            ),
            (
                Rule::VariableNaming,
                10,
                "Variable 'BadName' is not in camel case: line 10".to_string()
            ),
        ]
    );
}

#[test]
fn a_short_name_is_reported() {
    let source = "int ab = 1, abc = 2, x = 3;";
    let tree = declaration(source, &["ab", "abc", "x"]);
    let mut issues = Vec::new();
    check_for_short_variable_name(&tree, None, source.as_bytes(), &mut issues);
    check_for_short_variable_name(
        &tree,
        Some(NodeKind::Other),
        source.as_bytes(),
        &mut issues,
    );
    let expected = vec![
        (Rule::ShortName, 1, "Variable 'ab' is too short: line 1".to_string()),
        (Rule::ShortName, 1, "Variable 'x' is too short: line 1".to_string()),
    ];
    assert_eq!(summary(&issues), [expected.clone(), expected].concat());
}

#[test]
fn a_short_name_in_a_loop_header_passes() {
    let source = "int i = 0;";
    let mut issues = Vec::new();
    check_for_short_variable_name(
        &declaration(source, &["i"]),
        Some(NodeKind::ForStatement),
        source.as_bytes(),
        &mut issues,
    );
    assert!(issues.is_empty());
}

#[test]
fn the_length_of_a_name_counts_bytes() {
    let source = "int \u{3b4}\u{3b4} = 0;";
    let mut issues = Vec::new();
    check_for_short_variable_name(
        &declaration(source, &["\u{3b4}\u{3b4}"]),
        None,
        source.as_bytes(),
        &mut issues,
    );
    assert!(issues.is_empty());
}

#[test]
fn only_init_declarators_that_start_with_an_identifier_declare_a_name() {
    let source = b"int x; int *p = 0;";
    let plain = node(
        "declaration",
        0,
        6,
        vec![under(node("identifier", 4, 5, vec![]), "declarator")],
    );
    let pointer = node(
        "declaration",
        7,
        18,
        vec![node(
            "init_declarator",
            11,
            17,
            vec![node("pointer_declarator", 11, 13, vec![node("identifier", 12, 13, vec![])])],
        )],
    );
    let empty = node("declaration", 0, 6, vec![node("init_declarator", 4, 5, vec![])]);
    let mut issues = Vec::new();
    for tree in [&plain, &pointer, &empty] {
        check_for_short_variable_name(tree, None, source, &mut issues);
        validate_variable_camel_case_name(tree, source, &mut issues);
        validate_constant_uppercase_name(tree, source, &mut issues);
    }
    assert!(issues.is_empty());
}

#[test]
fn a_name_whose_text_cannot_be_read_is_passed_over() {
    let source = b"int x = 0;";
    let tree = node(
        "declaration",
        0,
        10,
        vec![node("init_declarator", 4, 9, vec![node("identifier", 4, 40, vec![])])],
    );
    let mut issues = Vec::new();
    validate_node(&tree, None, source, &mut issues, &mut SourceBuffer::new(source));
    assert!(issues.is_empty());
}

#[test]
fn a_control_flow_statement_without_the_space_is_reported() {
    let tree = on_row(node("if_statement", 0, 8, vec![]), 6);
    let mut issues = Vec::new();
    detect_missing_space_before_control_flow_parenthesis("if(x) {}", &mut issues, &tree);
    assert_eq!(
        summary(&issues),
        vec![(
            Rule::ControlFlowSpacing,
            7,
            "Control flow statement should have a space before '(': line 7".to_string()
        )]
    );
}

#[test]
fn a_control_flow_statement_with_the_space_passes() {
    let tree = node("if_statement", 0, 9, vec![]);
    let mut issues = Vec::new();
    for text in ["if (x) {}", "for (;;) {}", "while (true) {}", "if(a) { while (b) {} }"] {
        detect_missing_space_before_control_flow_parenthesis(text, &mut issues, &tree);
    }
    assert!(issues.is_empty());
}

#[test]
fn a_counting_loop_gets_the_suggestion() {
    let tree = on_row(node("for_statement", 0, 30, vec![]), 1);
    let mut issues = Vec::new();
    suggest_range_based_for_loop("for (int i = 0; i < n; i++) {}", &mut issues, &tree);
    assert_eq!(
        summary(&issues),
        vec![(Rule::RangeBasedFor, 2, "Consider using range-based for loop: line 2".to_string())]
    );
}

#[test]
fn a_loop_with_a_colon_or_without_the_space_gets_no_suggestion() {
    let tree = node("for_statement", 0, 30, vec![]);
    let mut issues = Vec::new();
    suggest_range_based_for_loop("for (int i = 0; i < n; i++) { a ? b : c; }", &mut issues, &tree);
    suggest_range_based_for_loop("for(int i = 0; i < n; i++) {}", &mut issues, &tree);
    assert!(issues.is_empty());
}

#[test]
fn a_for_statement_runs_the_spacing_rule_before_the_loop_rule() {
    let source = b"for(;;) { for (;;) {} }";
    let tree = node("for_statement", 0, 8, vec![]);
    let wide = node("for_statement", 0, 23, vec![]);
    let mut issues = Vec::new();
    let mut buffer = SourceBuffer::new(source);
    validate_node(&tree, None, source, &mut issues, &mut buffer);
    validate_node(&wide, None, source, &mut issues, &mut buffer);
    assert_eq!(
        issues.iter().map(|issue| issue.rule()).collect::<Vec<_>>(),
        vec![Rule::ControlFlowSpacing, Rule::RangeBasedFor]
    );
}

#[test]
fn the_other_control_flow_statements_run_the_spacing_rule_only() {
    let source = b"while(x) {}";
    let mut issues = Vec::new();
    let mut buffer = SourceBuffer::new(source);
    for kind in ["if_statement", "while_statement", "for_range_loop"] {
        validate_node(&node(kind, 0, 11, vec![]), None, source, &mut issues, &mut buffer);
    }
    assert_eq!(
        issues.iter().map(|issue| issue.rule()).collect::<Vec<_>>(),
        vec![Rule::ControlFlowSpacing; 3]
    );
    let mut none = Vec::new();
    validate_node(&node("if_statement", 0, 12, vec![]), None, source, &mut none, &mut buffer);
    assert!(none.is_empty());
}

#[test]
fn a_declaration_runs_the_naming_rule_before_the_short_name_rule() {
    let source = "int X = 1, y = 2, bad_one = 3;";
    let tree = on_row(declaration(source, &["X", "y", "bad_one"]), 3);
    let mut issues = Vec::new();
    let mut buffer = SourceBuffer::new(source.as_bytes());
    validate_node(&tree, None, source.as_bytes(), &mut issues, &mut buffer);
    assert_eq!(
        summary(&issues),
        vec![
            (Rule::VariableNaming, 4, "Variable 'X' is not in camel case: line 4".to_string()),
            (
                Rule::VariableNaming,
                4,
                "Variable 'bad_one' is not in camel case: line 4".to_string()
            ),
            (Rule::ShortName, 4, "Variable 'X' is too short: line 4".to_string()),
            (Rule::ShortName, 4, "Variable 'y' is too short: line 4".to_string()),
        ]
    );
    assert_eq!(buffer.to_bytes(), source.as_bytes().to_vec());
}

#[test]
fn a_short_constant_is_reported_by_both_rules() {
    let source = "const int ab = 1;";
    let mut issues = Vec::new();
    let mut buffer = SourceBuffer::new(source.as_bytes());
    validate_node(
        &declaration(source, &["ab"]),
        None,
        source.as_bytes(),
        &mut issues,
        &mut buffer,
    );
    assert_eq!(
        summary(&issues),
        vec![
            (Rule::ConstantNaming, 1, "Const 'ab' is not all in uppercase: line 1".to_string()),
            (Rule::ShortName, 1, "Variable 'ab' is too short: line 1".to_string()),
        ]
    );
}

#[test]
fn importing_the_namespace_std_is_reported_and_struck_out() {
    let source = b"int a; using namespace std; int b;";
    let tree = on_row(node("using_declaration", 7, 27, vec![]), 11);
    let mut issues = Vec::new();
    let mut buffer = SourceBuffer::new(source);
    validate_node(&tree, None, source, &mut issues, &mut buffer);
    assert_eq!(
        summary(&issues),
        vec![(
            Rule::NamespaceImport,
            12,
            "Using namespace std is not recommended: line 12".to_string()
        )]
    );
    assert_eq!(buffer.to_bytes(), b"int a;  int b;".to_vec());
}

#[test]
fn another_using_declaration_passes_and_stays() {
    let source = b"using std::cout;";
    let mut issues = Vec::new();
    let mut buffer = SourceBuffer::new(source);
    validate_node(&node("using_declaration", 0, 16, vec![]), None, source, &mut issues, &mut buffer);
    assert!(issues.is_empty());
    assert_eq!(buffer.to_bytes(), source.to_vec());
}

#[test]
fn a_goto_statement_is_always_reported() {
    let source = b"goto end;";
    let mut issues = Vec::new();
    let mut buffer = SourceBuffer::new(source);
    validate_node(
        &on_row(node("goto_statement", 0, 9, vec![]), 41),
        None,
        source,
        &mut issues,
        &mut buffer,
    );
    validate_node(&node("goto_statement", 50, 60, vec![]), None, source, &mut issues, &mut buffer);
    assert_eq!(
        summary(&issues),
        vec![
            (Rule::Goto, 42, "Usage of 'goto' statement found".to_string()),
            (Rule::Goto, 1, "Usage of 'goto' statement found".to_string()),
        ]
    );
}

#[test]
fn a_call_with_a_space_before_the_parenthesis_is_reported() {
    let source = b"foo (1); bar(2);";
    let mut issues = Vec::new();
    let mut buffer = SourceBuffer::new(source);
    validate_node(&node("call_expression", 0, 7, vec![]), None, source, &mut issues, &mut buffer);
    validate_node(&node("call_expression", 9, 15, vec![]), None, source, &mut issues, &mut buffer);
    assert_eq!(
        summary(&issues),
        vec![(
            Rule::CallSpacing,
            1,
            "Function call should not have a space before '(': line 1".to_string()
        )]
    );
}

#[test]
fn the_catch_all_header_is_reported() {
    let source = b"#include <bits/stdc++.h>\n#include <vector>\n";
    let mut issues = Vec::new();
    let mut buffer = SourceBuffer::new(source);
    validate_node(&node("preproc_include", 0, 25, vec![]), None, source, &mut issues, &mut buffer);
    validate_node(
        &on_row(node("preproc_include", 25, 43, vec![]), 1),
        None,
        source,
        &mut issues,
        &mut buffer,
    );
    assert_eq!(
        summary(&issues),
        vec![(
            Rule::UmbrellaHeader,
            1,
            "#include <bits/stdc++.h> should not be used in real programs: line 1".to_string()
        )]
    );
}

#[test]
fn a_node_whose_text_cannot_be_read_is_passed_over() {
    let source = "using namespace std; // \u{3b4}".as_bytes();
    let cut = source.len() - 1;
    let mut issues = Vec::new();
    let mut buffer = SourceBuffer::new(source);
    for kind in
        ["using_declaration", "for_statement", "if_statement", "call_expression", "preproc_include"]
    {
        validate_node(&node(kind, 0, cut, vec![]), None, source, &mut issues, &mut buffer);
        validate_node(&node(kind, 0, cut + 9, vec![]), None, source, &mut issues, &mut buffer);
        validate_node(&node(kind, 5, 2, vec![]), None, source, &mut issues, &mut buffer);
    }
    assert!(issues.is_empty());
    assert_eq!(buffer.to_bytes(), source.to_vec());
}

#[test]
fn a_node_of_no_category_is_passed_over() {
    let source = b"using namespace std; goto end;";
    let mut issues = Vec::new();
    let mut buffer = SourceBuffer::new(source);
    for kind in ["translation_unit", "ERROR", "identifier", "init_declarator", "type_qualifier"] {
        validate_node(&node(kind, 0, 30, vec![]), None, source, &mut issues, &mut buffer);
    }
    assert!(issues.is_empty());
    assert_eq!(buffer.to_bytes(), source.to_vec());
}

#[test]
fn the_walk_reports_a_node_before_its_children_and_children_from_the_left() {
    let source = b"for(;;) { goto a; foo (1); } goto b;";
    let tree = node(
        "translation_unit",
        0,
        36,
        vec![
            on_row(
                node(
                    "for_statement",
                    0,
                    28,
                    vec![node(
                        "compound_statement",
                        8,
                        28,
                        vec![
                            on_row(node("goto_statement", 10, 17, vec![]), 1),
                            on_row(node("call_expression", 18, 25, vec![]), 2),
                        ],
                    )],
                ),
                0,
            ),
            on_row(node("goto_statement", 29, 36, vec![]), 3),
        ],
    );
    let (issues, rewritten) = lint(&tree, source);
    assert_eq!(
        issues.iter().map(|issue| (issue.rule(), issue.line())).collect::<Vec<_>>(),
        vec![
            (Rule::ControlFlowSpacing, 1),
            (Rule::Goto, 2),
            (Rule::CallSpacing, 3),
            (Rule::Goto, 4),
        ]
    );
    assert_eq!(rewritten, source.to_vec());
}

#[test]
fn the_walk_goes_below_a_node_that_was_reported() {
    let source = b"using namespace std;";
    let tree = node(
        "using_declaration",
        0,
        20,
        vec![node("goto_statement", 6, 15, vec![node("using_declaration", 6, 19, vec![])])],
    );
    let (issues, rewritten) = lint(&tree, source);
    assert_eq!(
        issues.iter().map(|issue| issue.rule()).collect::<Vec<_>>(),
        vec![Rule::NamespaceImport, Rule::Goto, Rule::NamespaceImport]
    );
    assert_eq!(rewritten, Vec::<u8>::new());
}

#[test]
fn the_loop_header_lets_only_its_own_declaration_pass() {
    let source = "int i = 0; { int j = 1; }";
    let header = declaration("int i = 0;", &["i"]);
    let mut inner = declaration("int j = 1;", &["j"]);
    inner.start_byte = 13;
    inner.end_byte = 23;
    inner.children[0].start_byte = 17;
    inner.children[0].end_byte = 22;
    inner.children[0].children[0].start_byte = 17;
    inner.children[0].children[0].end_byte = 18;
    let tree = node(
        "for_statement",
        5,
        2,
        vec![header, node("compound_statement", 11, 25, vec![inner])],
    );
    let (issues, _) = lint(&tree, source.as_bytes());
    assert_eq!(
        summary(&issues),
        vec![(Rule::ShortName, 1, "Variable 'j' is too short: line 1".to_string())]
    );
}

#[test]
fn the_walk_takes_its_node_for_a_root() {
    let source = "int i = 0;";
    let tree = node("for_statement", 0, 0, vec![declaration(source, &["i"])]);
    let mut issues = Vec::new();
    let mut buffer = SourceBuffer::new(source.as_bytes());
    check_for_issues(&tree.children[0], &mut issues, source.as_bytes(), &mut buffer);
    assert_eq!(
        summary(&issues),
        vec![(Rule::ShortName, 1, "Variable 'i' is too short: line 1".to_string())]
    );
}

#[test]
fn the_walk_adds_to_the_issues_and_the_spans_that_are_there() {
    let source = b"using namespace std; goto a;";
    let tree = node(
        "translation_unit",
        0,
        28,
        vec![node("using_declaration", 0, 20, vec![]), node("goto_statement", 21, 28, vec![])],
    );
    let mut issues = vec![Diagnostic::new(Rule::CallSpacing, 8, "earlier".to_string())];
    let mut buffer = SourceBuffer::new(source);
    buffer.remove_span(24, 26);
    check_for_issues(&tree, &mut issues, source, &mut buffer);
    assert_eq!(
        issues.iter().map(|issue| (issue.rule(), issue.line())).collect::<Vec<_>>(),
        vec![(Rule::CallSpacing, 9), (Rule::NamespaceImport, 1), (Rule::Goto, 1)]
    );
    assert_eq!(buffer.to_bytes(), b" gota;".to_vec());
}

#[test]
fn two_fixes_in_one_pass_both_go_by_the_offsets_of_the_source() {
    let source = b"using namespace std; int a; using namespace std; int b;";
    let tree = node(
        "translation_unit",
        0,
        55,
        vec![node("using_declaration", 0, 20, vec![]), node("using_declaration", 28, 48, vec![])],
    );
    let (issues, rewritten) = lint(&tree, source);
    assert_eq!(issues.len(), 2);
    assert_eq!(rewritten, b" int a;  int b;".to_vec());
}
