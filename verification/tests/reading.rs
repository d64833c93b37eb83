use vim_plugin_metadata::comments::read_doc;
use vim_plugin_metadata::literal::read_literal;
use vim_plugin_metadata::module::read_module;
use vim_plugin_metadata::text::{
    decimal_text, text_after, text_begins_with, text_ends_with, text_is,
};
use vim_plugin_metadata::treenodes::read_declared;
use vim_plugin_metadata::{SyntaxNode, VimModule, VimNode};

fn node(kind: &str, text: &str, children: Vec<SyntaxNode>) -> SyntaxNode {
    SyntaxNode { kind: kind.to_string(), row: 0, column: 0, text: text.to_string(), children }
}

fn leaf(kind: &str, text: &str) -> SyntaxNode {
    node(kind, text, vec![])
}

fn at(row: usize, column: usize, node: SyntaxNode) -> SyntaxNode {
    SyntaxNode { row, column, ..node }
}

fn comment(row: usize, text: &str) -> SyntaxNode {
    at(row, 0, leaf("comment", text))
}

fn variable(row: usize, name: &str, value: &str) -> SyntaxNode {
    let children = vec![
        leaf("let", "let"),
        leaf("scoped_identifier", name),
        leaf("=", "="),
        leaf("integer_literal", value),
    ];
    at(row, 0, node("let_statement", "", children))
}

fn script(children: Vec<SyntaxNode>) -> SyntaxNode {
    node("script_file", "", children)
}

fn doc_node(doc: &str) -> VimNode {
    VimNode::StandaloneDocComment(doc.to_string())
}

fn variable_node(name: &str, value: &str, doc: Option<&str>) -> VimNode {
    VimNode::Variable {
        name: name.to_string(),
        init_value_token: value.to_string(),
        doc: doc.map(|d| d.to_string()),
    }
}

fn module(doc: Option<&str>, nodes: Vec<VimNode>) -> VimModule {
    VimModule { path: None, doc: doc.map(|d| d.to_string()), nodes }
}

fn strings(texts: &[&str]) -> Vec<String> {
    texts.iter().map(|t| t.to_string()).collect()
}

#[test]
fn text_comparisons() {
    assert!(text_is(&"Flag".to_string(), "Flag"));
    assert!(!text_is(&"Flags".to_string(), "Flag"));
    assert!(text_begins_with(&"\"\" é".to_string(), "\"\" é"));
    assert!(!text_begins_with(&"\"".to_string(), "\"\""));
    assert!(text_begins_with(&"é".to_string(), ""));
    assert!(text_ends_with(&"héé.vim".to_string(), "é.vim"));
    assert!(text_ends_with(&".vim".to_string(), ".vim"));
    assert!(!text_ends_with(&"vim".to_string(), ".vim"));
    assert!(!text_ends_with(&"a.vim~".to_string(), ".vim"));
    assert_eq!(text_after("éab", 1), "ab");
    assert_eq!(text_after("ab", 2), "");
}

#[test]
fn decimal_notation() {
    assert_eq!(decimal_text(0), "0");
    assert_eq!(decimal_text(9), "9");
    assert_eq!(decimal_text(10), "10");
    assert_eq!(decimal_text(120), "120");
    assert_eq!(decimal_text(345678), "345678");
    assert_eq!(decimal_text(usize::MAX), format!("{}", usize::MAX));
}

#[test]
fn literal_with_single_quotes() {
    assert_eq!(read_literal("'some_flag'"), Some("some_flag".to_string()));
    assert_eq!(read_literal("''"), Some("".to_string()));
    assert_eq!(read_literal("'it''s'"), Some("it's".to_string()));
    assert_eq!(read_literal("''''"), Some("'".to_string()));
    assert_eq!(read_literal("'a\\n\"b'"), Some("a\\n\"b".to_string()));
}

#[test]
fn literal_with_double_quotes() {
    assert_eq!(read_literal("\"some_flag\""), Some("some_flag".to_string()));
    assert_eq!(read_literal("\"\""), Some("".to_string()));
    assert_eq!(read_literal("\"a\\\"b\\\\c\""), Some("a\"b\\c".to_string()));
    assert_eq!(
        read_literal("\"\\n\\t\\r\\e\\b\\f\\x\""),
        Some("\n\t\r\x1b\x08\x0cx".to_string())
    );
    assert_eq!(read_literal("\"''\""), Some("''".to_string()));
}

#[test]
fn literal_that_is_none() {
    assert_eq!(read_literal(""), None);
    assert_eq!(read_literal("'"), None);
    assert_eq!(read_literal("'a\""), None);
    assert_eq!(read_literal("abba"), None);
}

#[test]
fn doc_below_a_bare_opening_line() {
    let nodes = vec![
        comment(0, "\"\""),
        comment(1, "\" One."),
        comment(2, "\""),
        comment(3, "\"   Two."),
        comment(4, "\"Three."),
    ];
    assert_eq!(read_doc(&nodes, 0, 5), Some("One.\n\n  Two.\nThree.".to_string()));
    assert_eq!(read_doc(&nodes, 0, 1), Some("".to_string()));
    assert_eq!(read_doc(&nodes, 1, 5), None);
    assert_eq!(read_doc(&nodes, 0, 0), None);
}

#[test]
fn doc_from_the_opening_line() {
    let nodes = vec![comment(0, "\"\" One."), comment(1, "\"\" Two."), comment(2, "Three.")];
    assert_eq!(read_doc(&nodes, 0, 3), Some("One.\n\" Two.\nThree.".to_string()));
    assert_eq!(read_doc(&nodes, 0, 1), Some("One.".to_string()));
    assert_eq!(read_doc(&nodes, 1, 3), Some("Two.\nThree.".to_string()));
}

#[test]
fn declared_function() {
    let statement = node(
        "function_definition",
        "",
        vec![
            leaf("function", "function"),
            leaf("bang", "!"),
            node(
                "function_declaration",
                "s:F(a, b = 1, ...)",
                vec![
                    leaf("scoped_identifier", "s:F"),
                    node(
                        "parameters",
                        "(a, b = 1, ...)",
                        vec![
                            leaf("(", "("),
                            leaf("identifier", "a"),
                            leaf(",", ","),
                            leaf("default_parameter", "b = 1"),
                            leaf(",", ","),
                            leaf("spread", "..."),
                            leaf(")", ")"),
                        ],
                    ),
                ],
            ),
            leaf("abort", "abort"),
            leaf("dict", "dict"),
            leaf("body", ""),
            leaf("endfunction", "endfunction"),
        ],
    );
    assert_eq!(
        read_declared(&statement, &Some("Doc.".to_string())),
        vec![VimNode::Function {
            name: "s:F".to_string(),
            args: strings(&["a", "b = 1", "..."]),
            modifiers: strings(&["!", "abort", "dict"]),
            doc: Some("Doc.".to_string()),
        }]
    );
}

#[test]
fn declared_function_without_a_head() {
    assert_eq!(read_declared(&leaf("function_definition", ""), &None), vec![]);
    let no_name = node("function_definition", "", vec![leaf("function_declaration", "")]);
    assert_eq!(read_declared(&no_name, &None), vec![]);
    let no_parameters = node(
        "function_definition",
        "",
        vec![node("function_declaration", "", vec![leaf("identifier", "F")])],
    );
    assert_eq!(
        read_declared(&no_parameters, &None),
        vec![VimNode::Function {
            name: "F".to_string(),
            args: vec![],
            modifiers: vec![],
            doc: None,
        }]
    );
}

#[test]
fn declared_command() {
    let statement = node(
        "command_statement",
        "",
        vec![
            leaf("command", "command"),
            leaf("bang", "!"),
            leaf("command_attribute", "-nargs=*"),
            leaf("command_attribute", "-bang"),
            leaf("command_name", "SomeCommand"),
            leaf("command", "call F()"),
        ],
    );
    assert_eq!(
        read_declared(&statement, &None),
        vec![VimNode::Command {
            name: "SomeCommand".to_string(),
            modifiers: strings(&["!", "-nargs=*", "-bang"]),
            doc: None,
        }]
    );
    let listing = node("command_statement", "", vec![leaf("command", "command")]);
    assert_eq!(read_declared(&listing, &None), vec![]);
}

fn list_assignment(elements: Vec<SyntaxNode>) -> SyntaxNode {
    let children = vec![
        leaf("let", "let"),
        node("list_assignment", "", elements),
        leaf("=", "="),
        leaf("call_expression", "F()"),
    ];
    node("let_statement", "", children)
}

#[test]
fn declared_list_of_variables() {
    let statement = list_assignment(vec![
        leaf("[", "["),
        leaf("identifier", "a"),
        leaf(",", ","),
        leaf("index_expression", "b[0]"),
        leaf(",", ","),
        leaf("argument", "a:c"),
        leaf("]", "]"),
    ]);
    assert_eq!(
        read_declared(&statement, &Some("Doc.".to_string())),
        vec![
            variable_node("a", "F()[0]", Some("Doc.")),
            variable_node("a:c", "F()[2]", Some("Doc.")),
        ]
    );
}

#[test]
fn declared_list_of_variables_with_a_rest() {
    let statement = list_assignment(vec![
        leaf("[", "["),
        leaf("identifier", "head"),
        leaf(";", ";"),
        leaf("identifier", "tail"),
        leaf("]", "]"),
    ]);
    assert_eq!(
        read_declared(&statement, &None),
        vec![variable_node("head", "F()[0]", None), variable_node("tail", "F()[1:]", None)]
    );
}

#[test]
fn declared_list_of_many_variables() {
    let elements = (0..12).map(|i| leaf("identifier", &format!("v{}", i))).collect();
    let nodes = read_declared(&list_assignment(elements), &None);
    assert_eq!(nodes.len(), 12);
    assert_eq!(nodes[9], variable_node("v9", "F()[9]", None));
    assert_eq!(nodes[11], variable_node("v11", "F()[11]", None));
}

#[test]
fn let_that_declares_nothing() {
    let with = |target: &str, operator: &str| {
        let children = vec![
            leaf("let", "let"),
            leaf(target, "x"),
            leaf(operator, operator),
            leaf("integer_literal", "1"),
        ];
        node("let_statement", "", children)
    };
    assert_eq!(read_declared(&with("identifier", "="), &None).len(), 1);
    assert_eq!(read_declared(&with("identifier", "+="), &None), vec![]);
    assert_eq!(read_declared(&with("option", "="), &None), vec![]);
    assert_eq!(read_declared(&leaf("let_statement", "let"), &None), vec![]);
}

fn call(parts: Vec<SyntaxNode>) -> SyntaxNode {
    let children = vec![leaf("call", "call"), node("call_expression", "", parts)];
    node("call_statement", "", children)
}

fn member(name: &str) -> SyntaxNode {
    node("field_expression", "", vec![leaf("scoped_identifier", "s:plugin"), leaf("identifier", name)])
}

#[test]
fn declared_flag() {
    let with_default = call(vec![
        member("Flag"),
        leaf("(", "("),
        leaf("string_literal", "'it''s'"),
        leaf(",", ","),
        leaf("integer_literal", "1"),
        leaf(",", ","),
        leaf("integer_literal", "2"),
        leaf(")", ")"),
    ]);
    assert_eq!(
        read_declared(&with_default, &None),
        vec![VimNode::Flag {
            name: "it's".to_string(),
            default_value_token: Some("1".to_string()),
            doc: None,
        }]
    );
    let without_default = call(vec![leaf("identifier", "Flag"), leaf("string_literal", "\"f\"")]);
    assert_eq!(
        read_declared(&without_default, &Some("Doc.".to_string())),
        vec![VimNode::Flag {
            name: "f".to_string(),
            default_value_token: None,
            doc: Some("Doc.".to_string()),
        }]
    );
}

#[test]
fn call_that_declares_no_flag() {
    let flag = leaf("string_literal", "'f'");
    assert_eq!(read_declared(&call(vec![member("Other"), flag]), &None), vec![]);
    let named = leaf("identifier", "f");
    assert_eq!(read_declared(&call(vec![member("Flag"), named]), &None), vec![]);
    assert_eq!(read_declared(&call(vec![member("Flag")]), &None), vec![]);
    let unclosed = leaf("string_literal", "'f");
    assert_eq!(read_declared(&call(vec![member("Flag"), unclosed]), &None), vec![]);
    assert_eq!(read_declared(&leaf("call_statement", ""), &None), vec![]);
}

#[test]
fn other_statements_declare_nothing() {
    assert_eq!(read_declared(&leaf("echo_statement", "echo 1"), &None), vec![]);
    assert_eq!(read_declared(&leaf("ERROR", ""), &None), vec![]);
}

#[test]
fn doc_belongs_to_the_statement_right_below() {
    let tree = script(vec![comment(0, "\"\""), comment(1, "\" Doc."), variable(2, "g:a", "1")]);
    assert_eq!(
        read_module(&tree),
        module(None, vec![variable_node("g:a", "1", Some("Doc."))])
    );
}

#[test]
fn doc_above_a_blank_line_stands_alone() {
    let tree = script(vec![comment(0, "\"\" Doc."), variable(2, "g:a", "1")]);
    assert_eq!(
        read_module(&tree),
        module(Some("Doc."), vec![variable_node("g:a", "1", None)])
    );
}

#[test]
fn doc_at_another_indentation_stands_alone() {
    let tree = script(vec![
        variable(0, "g:a", "1"),
        at(1, 2, leaf("comment", "\"\" Doc.")),
        variable(2, "g:b", "2"),
    ]);
    assert_eq!(
        read_module(&tree),
        module(
            None,
            vec![
                variable_node("g:a", "1", None),
                doc_node("Doc."),
                variable_node("g:b", "2", None),
            ]
        )
    );
}

#[test]
fn comments_at_another_indentation_are_blocks_of_their_own() {
    let tree = script(vec![comment(0, "\"\" One."), at(1, 1, leaf("comment", "\"\" Two."))]);
    assert_eq!(read_module(&tree), module(Some("One."), vec![doc_node("Two.")]));
}

#[test]
fn doc_above_a_statement_that_declares_nothing_stands_alone() {
    let tree = script(vec![
        comment(0, "\"\" Doc."),
        at(1, 0, leaf("echo_statement", "echo 1")),
        comment(2, "\"\" More."),
        at(3, 0, leaf("echo_statement", "echo 2")),
    ]);
    assert_eq!(read_module(&tree), module(Some("Doc."), vec![doc_node("More.")]));
}

#[test]
fn doc_is_read_only_from_the_block_above() {
    let tree = script(vec![
        comment(0, "\"\" One."),
        comment(2, "\" Two."),
        variable(3, "g:a", "1"),
    ]);
    assert_eq!(
        read_module(&tree),
        module(Some("One."), vec![variable_node("g:a", "1", None)])
    );
}

#[test]
fn only_a_leading_doc_documents_the_module() {
    let tree = script(vec![
        comment(0, "\" Not a doc."),
        comment(2, "\"\" One."),
        comment(4, "\"\" Two."),
        variable(6, "g:a", "1"),
        comment(8, "\"\" Three."),
    ]);
    assert_eq!(
        read_module(&tree),
        module(
            Some("One."),
            vec![doc_node("Two."), variable_node("g:a", "1", None), doc_node("Three.")]
        )
    );
}

#[test]
fn module_without_a_leading_doc() {
    let tree = script(vec![variable(0, "g:a", "1"), comment(2, "\"\" Doc.")]);
    assert_eq!(
        read_module(&tree),
        module(None, vec![variable_node("g:a", "1", None), doc_node("Doc.")])
    );
    assert_eq!(read_module(&script(vec![])), module(None, vec![]));
}

#[test]
fn ordinary_comments_leave_no_trace() {
    let with_comments = script(vec![
        comment(0, "\" One."),
        variable(1, "g:a", "1"),
        comment(2, "\" Two."),
        comment(4, "\" Three."),
        variable(5, "g:b", "2"),
    ]);
    let without_comments = script(vec![variable(1, "g:a", "1"), variable(5, "g:b", "2")]);
    assert_eq!(read_module(&with_comments), read_module(&without_comments));
    assert_eq!(read_module(&without_comments).nodes.len(), 2);
}

#[test]
fn parts_that_are_apart_add_up() {
    let first = || vec![variable(0, "g:a", "1"), comment(1, "\"\" One.")];
    let second = || vec![comment(3, "\"\" Two."), variable(4, "g:b", "2")];
    let mut both = first();
    both.extend(second());
    let mut nodes = read_module(&script(first())).nodes;
    nodes.extend(read_module(&script(second())).nodes);
    assert_eq!(nodes.len(), 3);
    assert_eq!(read_module(&script(both)).nodes, nodes);
}

#[test]
fn comments_only_document() {
    let tree = script(vec![
        comment(0, "\"\" One."),
        variable(1, "g:a", "1"),
        comment(3, "\"\" Two."),
        variable(5, "g:b", "2"),
    ]);
    assert_eq!(
        read_module(&tree),
        module(
            None,
            vec![
                variable_node("g:a", "1", Some("One.")),
                doc_node("Two."),
                variable_node("g:b", "2", None),
            ]
        )
    );
}
