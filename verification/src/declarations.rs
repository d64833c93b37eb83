//! What each kind of statement declares, said of the nodes of the syntax tree themselves.
use crate::data::VimNodeModel;
use crate::literal::unquote;
use crate::syntax::SyntaxModel;
use crate::text::decimal;
use crate::treenodes::{
    command_modifiers, declared, element_nodes, first_of_kind, is_command_modifier,
    is_flag_function, is_modifier, is_operand, law_doc_changes_no_declaration, modifiers, operands,
    subscript,
};
use vstd::prelude::*;

verus! {

/// Whether node `i` is the first of this kind.
pub open spec fn is_first(nodes: Seq<SyntaxModel>, i: int, kind: Seq<char>) -> bool {
    &&& 0 <= i < nodes.len()
    &&& nodes[i].kind == kind
    &&& forall|j: int| 0 <= j < i ==> (#[trigger] nodes[j]).kind != kind
}

/// Whether no node is of this kind.
pub open spec fn has_none(nodes: Seq<SyntaxModel>, kind: Seq<char>) -> bool {
    forall|j: int| 0 <= j < nodes.len() ==> (#[trigger] nodes[j]).kind != kind
}

/// The nodes that are neither brackets nor separators nor comments between lines.
pub open spec fn parts(nodes: Seq<SyntaxModel>) -> Seq<SyntaxModel> {
    nodes.filter(
        |n: SyntaxModel|
            n.kind != "("@ && n.kind != ")"@ && n.kind != "["@ && n.kind != "]"@ && n.kind != ","@
                && n.kind != ";"@ && n.kind != "line_continuation_comment"@,
    )
}

/// Whether a node of this kind names a variable.
pub open spec fn names_variable(kind: Seq<char>) -> bool {
    kind == "identifier"@ || kind == "scoped_identifier"@ || kind == "argument"@
}

proof fn lemma_first(nodes: Seq<SyntaxModel>, kind: Seq<char>)
    ensures
        forall|i: int| #[trigger]
            is_first(nodes, i, kind) ==> first_of_kind(nodes, kind) == Some(nodes[i]),
        has_none(nodes, kind) ==> first_of_kind(nodes, kind) is None,
    decreases nodes.len(),
{
    if nodes.len() > 0 {
        let rest = nodes.skip(1);
        lemma_first(rest, kind);
        if nodes[0].kind != kind {
            assert forall|i: int| #[trigger] is_first(nodes, i, kind) implies first_of_kind(
                nodes,
                kind,
            ) == Some(nodes[i]) by {
                assert(rest[i - 1] == nodes[i]);
                assert forall|j: int| 0 <= j < i - 1 implies (#[trigger] rest[j]).kind != kind by {
                    assert(rest[j] == nodes[j + 1]);
                }
                assert(is_first(rest, i - 1, kind));
            }
            if has_none(nodes, kind) {
                assert forall|j: int| 0 <= j < rest.len() implies (#[trigger] rest[j]).kind
                    != kind by {
                    assert(rest[j] == nodes[j + 1]);
                }
            }
        } else {
            assert forall|i: int| #[trigger] is_first(nodes, i, kind) implies i == 0 by {
                if i > 0 {
                    assert(nodes[0].kind != kind);
                }
            }
        }
    }
}

proof fn lemma_parts(nodes: Seq<SyntaxModel>)
    ensures
        operands(nodes) == parts(nodes),
{
    let a = |n: SyntaxModel| is_operand(n.kind);
    let b = |n: SyntaxModel|
        n.kind != "("@ && n.kind != ")"@ && n.kind != "["@ && n.kind != "]"@ && n.kind != ","@
            && n.kind != ";"@ && n.kind != "line_continuation_comment"@;
    assert(a =~= b);
}

proof fn lemma_kinds_differ()
    ensures
        "command_statement"@ != "function_definition"@,
        "let_statement"@ != "function_definition"@,
        "let_statement"@ != "command_statement"@,
        "call_statement"@ != "function_definition"@,
        "call_statement"@ != "command_statement"@,
        "call_statement"@ != "let_statement"@,
        !names_variable("list_assignment"@),
        "identifier"@ != "field_expression"@,
{
    reveal_strlit("function_definition");
    reveal_strlit("command_statement");
    reveal_strlit("let_statement");
    reveal_strlit("call_statement");
    reveal_strlit("list_assignment");
    reveal_strlit("identifier");
    reveal_strlit("scoped_identifier");
    reveal_strlit("argument");
    reveal_strlit("field_expression");
    assert("function_definition"@.len() == 19);
    assert("command_statement"@.len() == 17);
    assert("let_statement"@.len() == 13);
    assert("call_statement"@.len() == 14);
    assert("list_assignment"@.len() == 15);
    assert("identifier"@.len() == 10);
    assert("scoped_identifier"@.len() == 17);
    assert("argument"@.len() == 8);
    assert("field_expression"@.len() == 16);
}

/// A function definition with a name declares one function. Its name is the text of the first part
/// of the declaration. Its arguments are the texts of the parts of its parameters, and none where
/// there are no parameters. Its modifiers are the texts of all children of the definition of kind
/// `bang`, `dict`, `range`, `abort` or `closure`, in the order of the source, and of no others.
pub proof fn law_function_definition(statement: SyntaxModel, doc: Option<Seq<char>>, d: int)
    requires
        statement.kind == "function_definition"@,
        is_first(statement.children, d, "function_declaration"@),
        parts(statement.children[d].children).len() > 0,
    ensures
        declared(statement, doc).len() == 1,
        declared(statement, doc)[0] is Function,
        declared(statement, doc)[0]->Function_name == parts(
            statement.children[d].children,
        )[0].text,
        forall|p: int| #[trigger]
            is_first(statement.children[d].children, p, "parameters"@) ==> declared(
                statement,
                doc,
            )[0]->Function_args == parts(
                statement.children[d].children[p].children,
            ).map_values(|n: SyntaxModel| n.text),
        has_none(statement.children[d].children, "parameters"@) ==> declared(
            statement,
            doc,
        )[0]->Function_args.len() == 0,
        declared(statement, doc)[0]->Function_modifiers == statement.children.filter(
            |n: SyntaxModel|
                n.kind == "bang"@ || n.kind == "dict"@ || n.kind == "range"@ || n.kind == "abort"@
                    || n.kind == "closure"@,
        ).map_values(|n: SyntaxModel| n.text),
        declared(statement, doc)[0]->Function_doc == doc,
{
    let declaration = statement.children[d];
    lemma_first(statement.children, "function_declaration"@);
    lemma_first(declaration.children, "parameters"@);
    lemma_parts(declaration.children);
    assert forall|p: int| #[trigger] is_first(declaration.children, p, "parameters"@) implies declared(
        statement,
        doc,
    )[0]->Function_args == parts(declaration.children[p].children).map_values(
        |n: SyntaxModel| n.text,
    ) by {
        lemma_parts(declaration.children[p].children);
    }
    let a = |n: SyntaxModel| is_modifier(n.kind);
    let b = |n: SyntaxModel|
        n.kind == "bang"@ || n.kind == "dict"@ || n.kind == "range"@ || n.kind == "abort"@ || n.kind
            == "closure"@;
    assert(a =~= b);
    assert(modifiers(statement.children) =~= statement.children.filter(b).map_values(
        |n: SyntaxModel| n.text,
    ));
}

/// A function definition without a name declares nothing.
pub proof fn law_function_definition_without_a_name(statement: SyntaxModel, doc: Option<Seq<char>>)
    requires
        statement.kind == "function_definition"@,
        has_none(statement.children, "function_declaration"@) || exists|d: int| #[trigger]
            is_first(statement.children, d, "function_declaration"@) && parts(
                statement.children[d].children,
            ).len() == 0,
    ensures
        declared(statement, doc).len() == 0,
{
    lemma_first(statement.children, "function_declaration"@);
    if !has_none(statement.children, "function_declaration"@) {
        let d = choose|d: int| #[trigger]
            is_first(statement.children, d, "function_declaration"@) && parts(
                statement.children[d].children,
            ).len() == 0;
        lemma_parts(statement.children[d].children);
    }
}

/// A `command` statement that names a command declares just that command. Its modifiers are the
/// texts of all children of kind `bang` or `command_attribute`, in the order of the source, and of
/// no others.
pub proof fn law_command_statement(statement: SyntaxModel, doc: Option<Seq<char>>, c: int)
    requires
        statement.kind == "command_statement"@,
        is_first(statement.children, c, "command_name"@),
    ensures
        declared(statement, doc).len() == 1,
        declared(statement, doc)[0] is Command,
        declared(statement, doc)[0]->Command_name == statement.children[c].text,
        declared(statement, doc)[0]->Command_modifiers == statement.children.filter(
            |n: SyntaxModel| n.kind == "bang"@ || n.kind == "command_attribute"@,
        ).map_values(|n: SyntaxModel| n.text),
        declared(statement, doc)[0]->Command_doc == doc,
{
    lemma_kinds_differ();
    lemma_first(statement.children, "command_name"@);
    let a = |n: SyntaxModel| is_command_modifier(n.kind);
    let b = |n: SyntaxModel| n.kind == "bang"@ || n.kind == "command_attribute"@;
    assert(a =~= b);
    assert(command_modifiers(statement.children) =~= statement.children.filter(b).map_values(
        |n: SyntaxModel| n.text,
    ));
}

/// A `command` statement that names no command declares nothing.
pub proof fn law_command_statement_without_a_name(statement: SyntaxModel, doc: Option<Seq<char>>)
    requires
        statement.kind == "command_statement"@,
        has_none(statement.children, "command_name"@),
    ensures
        declared(statement, doc).len() == 0,
{
    lemma_kinds_differ();
    lemma_first(statement.children, "command_name"@);
}

/// A `let` statement that gives one variable a value declares just that variable, with the text of
/// the value, whatever value that is.
pub proof fn law_let_of_a_variable(statement: SyntaxModel, doc: Option<Seq<char>>)
    requires
        statement.kind == "let_statement"@,
        parts(statement.children).len() >= 4,
        names_variable(parts(statement.children)[1].kind),
        parts(statement.children)[2].kind == "="@,
    ensures
        declared(statement, doc).len() == 1,
        declared(statement, doc)[0] is Variable,
        declared(statement, doc)[0]->Variable_name == parts(statement.children)[1].text,
        declared(statement, doc)[0]->init_value_token == parts(statement.children)[3].text,
        declared(statement, doc)[0]->Variable_doc == doc,
{
    lemma_kinds_differ();
    lemma_parts(statement.children);
}

/// What element `i` of a list of variables declares where the list is given the value `value`. If
/// `rest`, this is the last element, and takes all that is left of the value.
pub open spec fn element_declares(
    element: SyntaxModel,
    i: nat,
    rest: bool,
    value: Seq<char>,
    doc: Option<Seq<char>>,
) -> Seq<VimNodeModel> {
    if names_variable(element.kind) {
        seq![
            VimNodeModel::Variable {
                name: element.text,
                init_value_token: value + seq!['['] + decimal(i) + if rest {
                    seq![':', ']']
                } else {
                    seq![']']
                },
                doc,
            },
        ]
    } else {
        Seq::empty()
    }
}

proof fn lemma_elements(
    elements: Seq<SyntaxModel>,
    n: nat,
    rest: bool,
    value: Seq<char>,
    doc: Option<Seq<char>>,
)
    requires
        n <= elements.len(),
    ensures
        element_nodes(elements, n, rest, value, doc) == Seq::new(
            n,
            |i: int|
                element_declares(
                    elements[i],
                    i as nat,
                    rest && i == elements.len() - 1,
                    value,
                    doc,
                ),
        ).flatten(),
    decreases n,
{
    let f = |i: int|
        element_declares(elements[i], i as nat, rest && i == elements.len() - 1, value, doc);
    if n == 0 {
        assert(Seq::new(n, f).flatten() =~= Seq::empty());
    } else {
        let m = (n - 1) as nat;
        lemma_elements(elements, m, rest, value, doc);
        let last = f(n - 1);
        assert(Seq::new(n, f) =~= Seq::new(m, f) + seq![last]);
        vstd::seq_lib::lemma_flatten_concat(Seq::new(m, f), seq![last]);
        seq![last].lemma_flatten_singleton();
        reveal_strlit("[");
        reveal_strlit("]");
        reveal_strlit(":]");
        assert("["@ =~= seq!['[']);
        assert("]"@ =~= seq![']']);
        assert(":]"@ =~= seq![':', ']']);
        let is_rest = rest && n == elements.len();
        let tail = if is_rest {
            seq![':', ']']
        } else {
            seq![']']
        };
        assert(value + subscript(m, is_rest) =~= value + seq!['['] + decimal(m)
            + tail);
        assert(element_nodes(elements, n, rest, value, doc) =~= element_nodes(
            elements,
            m,
            rest,
            value,
            doc,
        ) + last);
    }
}

/// A `let` statement that gives a list of variables a value declares each variable of the list in
/// turn, with the text of the value and a subscript. Only the last one after a `;` takes the rest
/// of the value.
pub proof fn law_let_of_a_list(statement: SyntaxModel, doc: Option<Seq<char>>)
    requires
        statement.kind == "let_statement"@,
        parts(statement.children).len() >= 4,
        parts(statement.children)[1].kind == "list_assignment"@,
        parts(statement.children)[2].kind == "="@,
    ensures
        ({
            let list = parts(statement.children)[1].children;
            let value = parts(statement.children)[3].text;
            declared(statement, doc) == Seq::new(
                parts(list).len(),
                |i: int|
                    element_declares(
                        parts(list)[i],
                        i as nat,
                        !has_none(list, ";"@) && i == parts(list).len() - 1,
                        value,
                        doc,
                    ),
            ).flatten()
        }),
{
    lemma_kinds_differ();
    let list = parts(statement.children)[1].children;
    let value = parts(statement.children)[3].text;
    lemma_parts(statement.children);
    lemma_parts(list);
    lemma_first(list, ";"@);
    let rest = !has_none(list, ";"@);
    if rest {
        lemma_some_first(list, ";"@);
    }
    lemma_elements(parts(list), parts(list).len(), rest, value, doc);
}

proof fn lemma_some_first(nodes: Seq<SyntaxModel>, kind: Seq<char>)
    requires
        !has_none(nodes, kind),
    ensures
        exists|i: int| #[trigger] is_first(nodes, i, kind),
    decreases nodes.len(),
{
    let rest = nodes.skip(1);
    if nodes[0].kind == kind {
        assert(is_first(nodes, 0, kind));
    } else {
        let j = choose|j: int| 0 <= j < nodes.len() && (#[trigger] nodes[j]).kind == kind;
        assert(rest[j - 1] == nodes[j]);
        lemma_some_first(rest, kind);
        let i = choose|i: int| #[trigger] is_first(rest, i, kind);
        assert(nodes[i + 1] == rest[i]);
        assert forall|k: int| 0 <= k < i + 1 implies (#[trigger] nodes[k]).kind != kind by {
            if k > 0 {
                assert(nodes[k] == rest[k - 1]);
            }
        }
        assert(is_first(nodes, i + 1, kind));
    }
}

/// Every other `let` statement declares nothing.
pub proof fn law_let_of_something_else(statement: SyntaxModel, doc: Option<Seq<char>>)
    requires
        statement.kind == "let_statement"@,
        parts(statement.children).len() < 4 || parts(statement.children)[2].kind != "="@ || !(
        names_variable(parts(statement.children)[1].kind) || parts(statement.children)[1].kind
            == "list_assignment"@),
    ensures
        declared(statement, doc).len() == 0,
{
    lemma_kinds_differ();
    lemma_parts(statement.children);
}

/// Whether a function that is called declares flags: it is called `Flag`, or is a member of that
/// name.
pub open spec fn declares_flags(function: SyntaxModel) -> bool {
    ||| function.kind == "identifier"@ && function.text == "Flag"@
    ||| function.kind == "field_expression"@ && function.children.len() > 0
        && function.children.last().kind == "identifier"@ && function.children.last().text
        == "Flag"@
}

proof fn lemma_declares_flags(function: SyntaxModel)
    ensures
        is_flag_function(function) == declares_flags(function),
{
    lemma_kinds_differ();
}

/// A `call` statement that calls a function of flags with a string literal declares just one flag:
/// with the text that the literal says as its name, and the text of the second argument, if there
/// is one, as its default value.
pub proof fn law_call_of_flag(statement: SyntaxModel, doc: Option<Seq<char>>, c: int)
    requires
        statement.kind == "call_statement"@,
        is_first(statement.children, c, "call_expression"@),
        parts(statement.children[c].children).len() >= 2,
        declares_flags(parts(statement.children[c].children)[0]),
        parts(statement.children[c].children)[1].kind == "string_literal"@,
        unquote(parts(statement.children[c].children)[1].text) is Some,
    ensures
        declared(statement, doc).len() == 1,
        declared(statement, doc)[0] is Flag,
        Some(declared(statement, doc)[0]->Flag_name) == unquote(
            parts(statement.children[c].children)[1].text,
        ),
        declared(statement, doc)[0]->default_value_token is Some <==> parts(
            statement.children[c].children,
        ).len() > 2,
        parts(statement.children[c].children).len() > 2 ==> declared(
            statement,
            doc,
        )[0]->default_value_token == Some(parts(statement.children[c].children)[2].text),
        declared(statement, doc)[0]->Flag_doc == doc,
{
    lemma_kinds_differ();
    lemma_first(statement.children, "call_expression"@);
    lemma_parts(statement.children[c].children);
    lemma_declares_flags(parts(statement.children[c].children)[0]);
}

/// Every other `call` statement declares nothing.
pub proof fn law_call_of_something_else(statement: SyntaxModel, doc: Option<Seq<char>>)
    requires
        statement.kind == "call_statement"@,
        forall|c: int| #[trigger]
            is_first(statement.children, c, "call_expression"@) ==> {
                let call = parts(statement.children[c].children);
                call.len() < 2 || !declares_flags(call[0]) || call[1].kind != "string_literal"@
                    || unquote(call[1].text) is None
            },
    ensures
        declared(statement, doc).len() == 0,
{
    lemma_kinds_differ();
    lemma_first(statement.children, "call_expression"@);
    if !has_none(statement.children, "call_expression"@) {
        lemma_some_first(statement.children, "call_expression"@);
        let c = choose|c: int| #[trigger] is_first(statement.children, c, "call_expression"@);
        let call = parts(statement.children[c].children);
        lemma_parts(statement.children[c].children);
        if call.len() > 0 {
            lemma_declares_flags(call[0]);
        }
    }
}

/// Statements of no other kind declare anything.
pub proof fn law_other_statements(statement: SyntaxModel, doc: Option<Seq<char>>)
    requires
        statement.kind != "function_definition"@,
        statement.kind != "command_statement"@,
        statement.kind != "let_statement"@,
        statement.kind != "call_statement"@,
    ensures
        declared(statement, doc).len() == 0,
{
}

/// Each declaration of a statement carries the documentation of the statement, and there are as
/// many of them as there are without it.
pub proof fn law_declarations_carry_doc(statement: SyntaxModel, doc: Option<Seq<char>>)
    ensures
        declared(statement, doc).len() == declared(statement, None).len(),
        forall|i: int|
            0 <= i < declared(statement, doc).len() ==> match #[trigger] declared(
                statement,
                doc,
            )[i] {
                VimNodeModel::StandaloneDocComment(_) => false,
                VimNodeModel::Function { doc: own, .. } => own == doc,
                VimNodeModel::Command { doc: own, .. } => own == doc,
                VimNodeModel::Variable { doc: own, .. } => own == doc,
                VimNodeModel::Flag { doc: own, .. } => own == doc,
            },
{
    law_doc_changes_no_declaration(statement, doc);
}

} // verus!
