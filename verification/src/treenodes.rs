//! What a statement declares, read from its node in the syntax tree.
use crate::comments::source_texts;
use crate::data::{copy_text, node_models, optional_text, texts, VimNode, VimNodeModel};
use crate::literal::{read_literal, unquote};
use crate::syntax::{lemma_children, outline, outlines, syntax_models, SyntaxModel, SyntaxNode};
use crate::text::{decimal, decimal_text, text_is};
use vstd::prelude::*;

verus! {

/// Brackets, separators and comments between the lines of a statement carry no meaning of their
/// own; every other node of a statement is one of its operands.
pub open spec fn is_operand(kind: Seq<char>) -> bool {
    !(kind == "("@ || kind == ")"@ || kind == "["@ || kind == "]"@ || kind == ","@ || kind == ";"@
        || kind == "line_continuation_comment"@)
}

/// The nodes that change how a function is defined.
pub open spec fn is_modifier(kind: Seq<char>) -> bool {
    kind == "bang"@ || kind == "dict"@ || kind == "range"@ || kind == "abort"@ || kind
        == "closure"@
}

/// The nodes that change how a command is defined.
pub open spec fn is_command_modifier(kind: Seq<char>) -> bool {
    kind == "bang"@ || kind == "command_attribute"@
}

/// The nodes that name a variable.
pub open spec fn is_variable(kind: Seq<char>) -> bool {
    kind == "identifier"@ || kind == "scoped_identifier"@ || kind == "argument"@
}

/// The operands among some nodes.
pub open spec fn operands(nodes: Seq<SyntaxModel>) -> Seq<SyntaxModel> {
    nodes.filter(|n: SyntaxModel| is_operand(n.kind))
}

/// The modifiers of a function among some nodes, as the source spells them.
pub open spec fn modifiers(nodes: Seq<SyntaxModel>) -> Seq<Seq<char>> {
    source_texts(nodes.filter(|n: SyntaxModel| is_modifier(n.kind)))
}

/// The modifiers of a command among some nodes, as the source spells them.
pub open spec fn command_modifiers(nodes: Seq<SyntaxModel>) -> Seq<Seq<char>> {
    source_texts(nodes.filter(|n: SyntaxModel| is_command_modifier(n.kind)))
}

/// The first node of this kind.
pub open spec fn first_of_kind(nodes: Seq<SyntaxModel>, kind: Seq<char>) -> Option<SyntaxModel>
    decreases nodes.len(),
{
    if nodes.len() == 0 {
        None
    } else if nodes[0].kind == kind {
        Some(nodes[0])
    } else {
        first_of_kind(nodes.skip(1), kind)
    }
}

/// What a function declares: its name, its parameters and its modifiers.
pub open spec fn function_nodes(statement: SyntaxModel, doc: Option<Seq<char>>) -> Seq<
    VimNodeModel,
> {
    match first_of_kind(statement.children, "function_declaration"@) {
        None => Seq::empty(),
        Some(declaration) => {
            let head = operands(declaration.children);
            if head.len() == 0 {
                Seq::empty()
            } else {
                seq![
                    VimNodeModel::Function {
                        name: head[0].text,
                        args: match first_of_kind(declaration.children, "parameters"@) {
                            Some(parameters) => source_texts(
                                operands(parameters.children),
                            ),
                            None => Seq::empty(),
                        },
                        modifiers: modifiers(statement.children),
                        doc,
                    },
                ]
            }
        },
    }
}

/// What a `command` statement declares, if it names a command.
pub open spec fn command_nodes(statement: SyntaxModel, doc: Option<Seq<char>>) -> Seq<
    VimNodeModel,
> {
    match first_of_kind(statement.children, "command_name"@) {
        None => Seq::empty(),
        Some(name) => seq![
            VimNodeModel::Command {
                name: name.text,
                modifiers: command_modifiers(statement.children),
                doc,
            },
        ],
    }
}

/// The subscript by which element `i` of a list is read, or, for the `rest` of a list, all
/// elements from `i` on.
pub open spec fn subscript(i: nat, rest: bool) -> Seq<char> {
    "["@ + decimal(i) + if rest {
        ":]"@
    } else {
        "]"@
    }
}

/// The variables that the first `n` elements of a list declare where the list as a whole is
/// given a value. If `rest`, the last of the elements takes what is left of that value.
pub open spec fn element_nodes(
    elements: Seq<SyntaxModel>,
    n: nat,
    rest: bool,
    value: Seq<char>,
    doc: Option<Seq<char>>,
) -> Seq<VimNodeModel>
    decreases n,
{
    if n == 0 {
        Seq::empty()
    } else {
        let before = element_nodes(elements, (n - 1) as nat, rest, value, doc);
        let element = elements[n - 1];
        if is_variable(element.kind) {
            before.push(
                VimNodeModel::Variable {
                    name: element.text,
                    init_value_token: value + subscript((n - 1) as nat, rest && n == elements.len()),
                    doc,
                },
            )
        } else {
            before
        }
    }
}

/// The variables that a `let` statement gives their value.
pub open spec fn let_nodes(statement: SyntaxModel, doc: Option<Seq<char>>) -> Seq<VimNodeModel> {
    let parts = operands(statement.children);
    if parts.len() < 4 || parts[2].kind != "="@ {
        Seq::empty()
    } else if is_variable(parts[1].kind) {
        seq![
            VimNodeModel::Variable {
                name: parts[1].text,
                init_value_token: parts[3].text,
                doc,
            },
        ]
    } else if parts[1].kind == "list_assignment"@ {
        let elements = operands(parts[1].children);
        let rest = first_of_kind(parts[1].children, ";"@) is Some;
        element_nodes(elements, elements.len(), rest, parts[3].text, doc)
    } else {
        Seq::empty()
    }
}

/// Whether a call of this function declares a flag: `Flag` itself, or a member of that name.
pub open spec fn is_flag_function(function: SyntaxModel) -> bool {
    if function.kind == "field_expression"@ {
        function.children.len() > 0 && function.children.last().kind == "identifier"@
            && function.children.last().text == "Flag"@
    } else {
        function.kind == "identifier"@ && function.text == "Flag"@
    }
}

/// The flag that a `call` statement declares, if it does.
pub open spec fn call_nodes(statement: SyntaxModel, doc: Option<Seq<char>>) -> Seq<VimNodeModel> {
    match first_of_kind(statement.children, "call_expression"@) {
        None => Seq::empty(),
        Some(call) => {
            let parts = operands(call.children);
            if parts.len() < 2 || !is_flag_function(parts[0]) || parts[1].kind
                != "string_literal"@ {
                Seq::empty()
            } else {
                match unquote(parts[1].text) {
                    None => Seq::empty(),
                    Some(name) => seq![
                        VimNodeModel::Flag {
                            name,
                            default_value_token: if parts.len() > 2 {
                                Some(parts[2].text)
                            } else {
                                None
                            },
                            doc,
                        },
                    ],
                }
            }
        },
    }
}

/// What a statement declares, each with the documentation that belongs to the statement.
pub open spec fn declared(statement: SyntaxModel, doc: Option<Seq<char>>) -> Seq<VimNodeModel> {
    if statement.kind == "function_definition"@ {
        function_nodes(statement, doc)
    } else if statement.kind == "command_statement"@ {
        command_nodes(statement, doc)
    } else if statement.kind == "let_statement"@ {
        let_nodes(statement, doc)
    } else if statement.kind == "call_statement"@ {
        call_nodes(statement, doc)
    } else {
        Seq::empty()
    }
}

/// The values of the nodes behind some references.
pub open spec fn ref_models(nodes: Seq<&SyntaxNode>) -> Seq<SyntaxModel> {
    nodes.map_values(|n: &SyntaxNode| n@)
}

fn operand_kind(kind: &String) -> (r: bool)
    ensures
        r == is_operand(kind@),
{
    !(text_is(kind, "(") || text_is(kind, ")") || text_is(kind, "[") || text_is(kind, "]")
        || text_is(kind, ",") || text_is(kind, ";") || text_is(kind, "line_continuation_comment"))
}

fn modifier_kind(kind: &String) -> (r: bool)
    ensures
        r == is_modifier(kind@),
{
    text_is(kind, "bang") || text_is(kind, "dict") || text_is(kind, "range") || text_is(
        kind,
        "abort",
    ) || text_is(kind, "closure")
}

fn command_modifier_kind(kind: &String) -> (r: bool)
    ensures
        r == is_command_modifier(kind@),
{
    text_is(kind, "bang") || text_is(kind, "command_attribute")
}

fn variable_kind(kind: &String) -> (r: bool)
    ensures
        r == is_variable(kind@),
{
    text_is(kind, "identifier") || text_is(kind, "scoped_identifier") || text_is(kind, "argument")
}

/// One more node, and what a filter keeps of the nodes so far.
proof fn lemma_filter_step(
    nodes: Seq<SyntaxModel>,
    i: int,
    keep: spec_fn(SyntaxModel) -> bool,
)
    requires
        0 <= i < nodes.len(),
    ensures
        nodes.take(i + 1).filter(keep) == if keep(nodes[i]) {
            nodes.take(i).filter(keep).push(nodes[i])
        } else {
            nodes.take(i).filter(keep)
        },
{
    assert(nodes.take(i + 1) =~= nodes.take(i).push(nodes[i]));
    nodes.take(i).lemma_filter_push(nodes[i], keep);
}

fn find_operands(nodes: &Vec<SyntaxNode>) -> (r: Vec<&SyntaxNode>)
    ensures
        ref_models(r@) == operands(syntax_models(nodes@)),
{
    let ghost models = syntax_models(nodes@);
    let ghost keep = |n: SyntaxModel| is_operand(n.kind);
    let mut r: Vec<&SyntaxNode> = Vec::new();
    let mut i: usize = 0;
    proof {
        assert(models.take(0).filter(keep) =~= Seq::<SyntaxModel>::empty());
        assert(ref_models(r@) =~= Seq::<SyntaxModel>::empty());
    }
    while i < nodes.len()
        invariant
            i <= nodes@.len(),
            models == syntax_models(nodes@),
            keep == |n: SyntaxModel| is_operand(n.kind),
            ref_models(r@) == models.take(i as int).filter(keep),
        decreases nodes@.len() - i,
    {
        proof {
            lemma_filter_step(models, i as int, keep);
        }
        let ghost before = r@;
        if operand_kind(&nodes[i].kind) {
            r.push(&nodes[i]);
            proof {
                assert(ref_models(r@) =~= ref_models(before).push(models[i as int]));
            }
        }
        i += 1;
    }
    proof {
        assert(models.take(nodes@.len() as int) =~= models);
    }
    r
}

fn find_modifiers(nodes: &Vec<SyntaxNode>) -> (r: Vec<String>)
    ensures
        texts(r@) == modifiers(syntax_models(nodes@)),
{
    let ghost models = syntax_models(nodes@);
    let ghost keep = |n: SyntaxModel| is_modifier(n.kind);
    let mut r: Vec<String> = Vec::new();
    let mut i: usize = 0;
    proof {
        assert(models.take(0).filter(keep) =~= Seq::<SyntaxModel>::empty());
        assert(texts(r@) =~= source_texts(Seq::<SyntaxModel>::empty()));
    }
    while i < nodes.len()
        invariant
            i <= nodes@.len(),
            models == syntax_models(nodes@),
            keep == |n: SyntaxModel| is_modifier(n.kind),
            texts(r@) == source_texts(models.take(i as int).filter(keep)),
        decreases nodes@.len() - i,
    {
        proof {
            lemma_filter_step(models, i as int, keep);
        }
        let ghost before = r@;
        let ghost kept = models.take(i as int).filter(keep);
        if modifier_kind(&nodes[i].kind) {
            r.push(nodes[i].text.clone());
            proof {
                assert(texts(r@) =~= texts(before).push(models[i as int].text));
                assert(source_texts(kept.push(models[i as int]))
                    =~= source_texts(kept).push(models[i as int].text));
            }
        }
        i += 1;
    }
    proof {
        assert(models.take(nodes@.len() as int) =~= models);
    }
    r
}

fn find_command_modifiers(nodes: &Vec<SyntaxNode>) -> (r: Vec<String>)
    ensures
        texts(r@) == command_modifiers(syntax_models(nodes@)),
{
    let ghost models = syntax_models(nodes@);
    let ghost keep = |n: SyntaxModel| is_command_modifier(n.kind);
    let mut r: Vec<String> = Vec::new();
    let mut i: usize = 0;
    proof {
        assert(models.take(0).filter(keep) =~= Seq::<SyntaxModel>::empty());
        assert(texts(r@) =~= source_texts(Seq::<SyntaxModel>::empty()));
    }
    while i < nodes.len()
        invariant
            i <= nodes@.len(),
            models == syntax_models(nodes@),
            keep == |n: SyntaxModel| is_command_modifier(n.kind),
            texts(r@) == source_texts(models.take(i as int).filter(keep)),
        decreases nodes@.len() - i,
    {
        proof {
            lemma_filter_step(models, i as int, keep);
        }
        let ghost before = r@;
        let ghost kept = models.take(i as int).filter(keep);
        if command_modifier_kind(&nodes[i].kind) {
            r.push(nodes[i].text.clone());
            proof {
                assert(texts(r@) =~= texts(before).push(models[i as int].text));
                assert(source_texts(kept.push(models[i as int]))
                    =~= source_texts(kept).push(models[i as int].text));
            }
        }
        i += 1;
    }
    proof {
        assert(models.take(nodes@.len() as int) =~= models);
    }
    r
}

fn find_kind<'a>(nodes: &'a Vec<SyntaxNode>, kind: &str) -> (r: Option<&'a SyntaxNode>)
    ensures
        match r {
            Some(n) => first_of_kind(syntax_models(nodes@), kind@) == Some(n@),
            None => first_of_kind(syntax_models(nodes@), kind@) is None,
        },
{
    let ghost models = syntax_models(nodes@);
    let mut i: usize = 0;
    proof {
        assert(models.skip(0) =~= models);
    }
    while i < nodes.len()
        invariant
            i <= nodes@.len(),
            models == syntax_models(nodes@),
            first_of_kind(models, kind@) == first_of_kind(models.skip(i as int), kind@),
        decreases nodes@.len() - i,
    {
        if text_is(&nodes[i].kind, kind) {
            return Some(&nodes[i]);
        }
        proof {
            assert(models.skip(i as int).skip(1) =~= models.skip(i + 1));
        }
        i += 1;
    }
    None
}

fn copy_texts(nodes: &Vec<&SyntaxNode>) -> (r: Vec<String>)
    ensures
        texts(r@) == source_texts(ref_models(nodes@)),
{
    let mut r: Vec<String> = Vec::new();
    let mut i: usize = 0;
    while i < nodes.len()
        invariant
            i <= nodes@.len(),
            r@.len() == i,
            forall|j: int| 0 <= j < i ==> (#[trigger] r@[j])@ == nodes@[j].text@,
        decreases nodes@.len() - i,
    {
        r.push(nodes[i].text.clone());
        i += 1;
    }
    proof {
        assert(texts(r@) =~= source_texts(ref_models(nodes@)));
    }
    r
}

fn no_nodes() -> (r: Vec<VimNode>)
    ensures
        node_models(r@) == Seq::<VimNodeModel>::empty(),
{
    let r: Vec<VimNode> = Vec::new();
    proof {
        assert(node_models(r@) =~= Seq::<VimNodeModel>::empty());
    }
    r
}

fn one_node(node: VimNode) -> (r: Vec<VimNode>)
    ensures
        node_models(r@) == seq![node@],
{
    let mut r: Vec<VimNode> = Vec::new();
    r.push(node);
    proof {
        assert(node_models(r@) =~= seq![node@]);
    }
    r
}

fn read_function(statement: &SyntaxNode, doc: &Option<String>) -> (r: Vec<VimNode>)
    ensures
        node_models(r@) == function_nodes(statement@, optional_text(*doc)),
{
    proof {
        lemma_children(statement);
    }
    match find_kind(&statement.children, "function_declaration") {
        None => no_nodes(),
        Some(declaration) => {
            proof {
                lemma_children(declaration);
            }
            let head: Vec<&SyntaxNode> = find_operands(&declaration.children);
            proof {
                assert(ref_models(head@).len() == head@.len());
            }
            if head.len() == 0 {
                return no_nodes();
            }
            let args: Vec<String> = match find_kind(&declaration.children, "parameters") {
                Some(parameters) => {
                    proof {
                        lemma_children(parameters);
                    }
                    copy_texts(&find_operands(&parameters.children))
                },
                None => {
                    let none: Vec<String> = Vec::new();
                    proof {
                        assert(texts(none@) =~= Seq::<Seq<char>>::empty());
                    }
                    none
                },
            };
            proof {
                assert(ref_models(head@)[0] == head@[0]@);
            }
            one_node(
                VimNode::Function {
                    name: head[0].text.clone(),
                    args,
                    modifiers: find_modifiers(&statement.children),
                    doc: copy_text(doc),
                },
            )
        },
    }
}

fn read_command(statement: &SyntaxNode, doc: &Option<String>) -> (r: Vec<VimNode>)
    ensures
        node_models(r@) == command_nodes(statement@, optional_text(*doc)),
{
    proof {
        lemma_children(statement);
    }
    match find_kind(&statement.children, "command_name") {
        None => no_nodes(),
        Some(name) => one_node(
            VimNode::Command {
                name: name.text.clone(),
                modifiers: find_command_modifiers(&statement.children),
                doc: copy_text(doc),
            },
        ),
    }
}

/// The text of an initial value that is element `i` of the list value `value`.
fn element_value(value: &String, i: usize, rest: bool) -> (r: String)
    ensures
        r@ == value@ + subscript(i as nat, rest),
{
    let mut r: String = value.clone();
    r.append("[");
    r.append(decimal_text(i).as_str());
    if rest {
        r.append(":]");
    } else {
        r.append("]");
    }
    proof {
        assert(r@ =~= value@ + subscript(i as nat, rest));
    }
    r
}

fn read_elements(
    elements: &Vec<&SyntaxNode>,
    rest: bool,
    value: &String,
    doc: &Option<String>,
) -> (r: Vec<VimNode>)
    ensures
        node_models(r@) == element_nodes(
            ref_models(elements@),
            elements@.len(),
            rest,
            value@,
            optional_text(*doc),
        ),
{
    let ghost models = ref_models(elements@);
    let mut r: Vec<VimNode> = no_nodes();
    let mut i: usize = 0;
    while i < elements.len()
        invariant
            i <= elements@.len(),
            models == ref_models(elements@),
            node_models(r@) == element_nodes(
                models,
                i as nat,
                rest,
                value@,
                optional_text(*doc),
            ),
        decreases elements@.len() - i,
    {
        proof {
            assert(models[i as int] == elements@[i as int]@);
        }
        if variable_kind(&elements[i].kind) {
            let ghost before = r@;
            let node = VimNode::Variable {
                name: elements[i].text.clone(),
                init_value_token: element_value(value, i, rest && i + 1 == elements.len()),
                doc: copy_text(doc),
            };
            r.push(node);
            proof {
                assert(node_models(r@) =~= node_models(before).push(node@));
            }
        }
        i += 1;
    }
    r
}

fn read_let(statement: &SyntaxNode, doc: &Option<String>) -> (r: Vec<VimNode>)
    ensures
        node_models(r@) == let_nodes(statement@, optional_text(*doc)),
{
    proof {
        lemma_children(statement);
    }
    let parts: Vec<&SyntaxNode> = find_operands(&statement.children);
    let ghost models = ref_models(parts@);
    proof {
        assert(models.len() == parts@.len());
        assert(forall|i: int| 0 <= i < parts@.len() ==> #[trigger] models[i] == parts@[i]@);
    }
    if parts.len() < 4 || !text_is(&parts[2].kind, "=") {
        no_nodes()
    } else if variable_kind(&parts[1].kind) {
        one_node(
            VimNode::Variable {
                name: parts[1].text.clone(),
                init_value_token: parts[3].text.clone(),
                doc: copy_text(doc),
            },
        )
    } else if text_is(&parts[1].kind, "list_assignment") {
        proof {
            lemma_children(parts@[1]);
        }
        let elements: Vec<&SyntaxNode> = find_operands(&parts[1].children);
        let rest: bool = find_kind(&parts[1].children, ";").is_some();
        proof {
            assert(ref_models(elements@).len() == elements@.len());
        }
        read_elements(&elements, rest, &parts[3].text, doc)
    } else {
        no_nodes()
    }
}

fn flag_function(function: &SyntaxNode) -> (r: bool)
    ensures
        r == is_flag_function(function@),
{
    proof {
        lemma_children(function);
    }
    if text_is(&function.kind, "field_expression") {
        let len: usize = function.children.len();
        proof {
            assert(function@.children.len() == len);
            if len > 0 {
                assert(function@.children.last() == function.children@[len - 1]@);
            }
        }
        len > 0 && text_is(&function.children[len - 1].kind, "identifier") && text_is(
            &function.children[len - 1].text,
            "Flag",
        )
    } else {
        text_is(&function.kind, "identifier") && text_is(&function.text, "Flag")
    }
}

fn read_call(statement: &SyntaxNode, doc: &Option<String>) -> (r: Vec<VimNode>)
    ensures
        node_models(r@) == call_nodes(statement@, optional_text(*doc)),
{
    proof {
        lemma_children(statement);
    }
    match find_kind(&statement.children, "call_expression") {
        None => no_nodes(),
        Some(call) => {
            proof {
                lemma_children(call);
            }
            let parts: Vec<&SyntaxNode> = find_operands(&call.children);
            let ghost models = ref_models(parts@);
            proof {
                assert(models.len() == parts@.len());
                assert(forall|i: int|
                    0 <= i < parts@.len() ==> #[trigger] models[i] == parts@[i]@);
            }
            if parts.len() < 2 || !flag_function(parts[0]) || !text_is(
                &parts[1].kind,
                "string_literal",
            ) {
                return no_nodes();
            }
            match read_literal(parts[1].text.as_str()) {
                None => no_nodes(),
                Some(name) => {
                    let default_value_token: Option<String> = if parts.len() > 2 {
                        Some(parts[2].text.clone())
                    } else {
                        None
                    };
                    one_node(VimNode::Flag { name, default_value_token, doc: copy_text(doc) })
                },
            }
        },
    }
}

/// Reads what a statement declares.
pub fn read_declared(statement: &SyntaxNode, doc: &Option<String>) -> (r: Vec<VimNode>)
    ensures
        node_models(r@) == declared(statement@, optional_text(*doc)),
{
    if text_is(&statement.kind, "function_definition") {
        read_function(statement, doc)
    } else if text_is(&statement.kind, "command_statement") {
        read_command(statement, doc)
    } else if text_is(&statement.kind, "let_statement") {
        read_let(statement, doc)
    } else if text_is(&statement.kind, "call_statement") {
        read_call(statement, doc)
    } else {
        no_nodes()
    }
}

proof fn lemma_outline_children(tree: SyntaxModel, depth: nat)
    ensures
        outline(tree, depth + 1).children == outlines(tree.children, depth),
{
    assert(outline(tree, depth + 1).children =~= outlines(tree.children, depth));
}

proof fn lemma_outline_first(nodes: Seq<SyntaxModel>, kind: Seq<char>, depth: nat)
    ensures
        first_of_kind(outlines(nodes, depth), kind) == match first_of_kind(nodes, kind) {
            Some(n) => Some(outline(n, depth)),
            None => None,
        },
    decreases nodes.len(),
{
    if nodes.len() > 0 {
        assert(outlines(nodes, depth).skip(1) =~= outlines(nodes.skip(1), depth));
        lemma_outline_first(nodes.skip(1), kind, depth);
    }
}

proof fn lemma_outline_filter(
    nodes: Seq<SyntaxModel>,
    depth: nat,
    keep: spec_fn(SyntaxModel) -> bool,
)
    requires
        forall|n: SyntaxModel| #![trigger outline(n, depth)] keep(outline(n, depth)) == keep(n),
    ensures
        outlines(nodes, depth).filter(keep) == outlines(nodes.filter(keep), depth),
    decreases nodes.len(),
{
    if nodes.len() == 0 {
        assert(outlines(nodes, depth) =~= nodes);
        assert(nodes.filter(keep) =~= nodes);
        assert(outlines(nodes.filter(keep), depth) =~= nodes);
    } else {
        let init = nodes.drop_last();
        let last = nodes.last();
        lemma_outline_filter(init, depth, keep);
        assert(nodes =~= init.push(last));
        assert(outlines(nodes, depth) =~= outlines(init, depth).push(outline(last, depth)));
        init.lemma_filter_push(last, keep);
        outlines(init, depth).lemma_filter_push(outline(last, depth), keep);
        assert(outlines(init.filter(keep).push(last), depth) =~= outlines(
            init.filter(keep),
            depth,
        ).push(outline(last, depth)));
    }
}

proof fn lemma_outline_operands(nodes: Seq<SyntaxModel>, depth: nat)
    ensures
        operands(outlines(nodes, depth)) == outlines(operands(nodes), depth),
{
    lemma_outline_filter(nodes, depth, |n: SyntaxModel| is_operand(n.kind));
}

proof fn lemma_outline_texts(nodes: Seq<SyntaxModel>, depth: nat)
    ensures
        source_texts(outlines(nodes, depth)) == source_texts(nodes),
{
    assert(source_texts(outlines(nodes, depth)) =~= source_texts(nodes));
}

proof fn lemma_outline_modifiers(nodes: Seq<SyntaxModel>, depth: nat)
    ensures
        modifiers(outlines(nodes, depth)) == modifiers(nodes),
{
    let keep = |n: SyntaxModel| is_modifier(n.kind);
    lemma_outline_filter(nodes, depth, keep);
    lemma_outline_texts(nodes.filter(keep), depth);
}

proof fn lemma_outline_command_modifiers(nodes: Seq<SyntaxModel>, depth: nat)
    ensures
        command_modifiers(outlines(nodes, depth)) == command_modifiers(nodes),
{
    let keep = |n: SyntaxModel| is_command_modifier(n.kind);
    lemma_outline_filter(nodes, depth, keep);
    lemma_outline_texts(nodes.filter(keep), depth);
}

proof fn lemma_outline_elements(
    elements: Seq<SyntaxModel>,
    n: nat,
    rest: bool,
    value: Seq<char>,
    doc: Option<Seq<char>>,
    depth: nat,
)
    requires
        n <= elements.len(),
    ensures
        element_nodes(outlines(elements, depth), n, rest, value, doc) == element_nodes(
            elements,
            n,
            rest,
            value,
            doc,
        ),
    decreases n,
{
    if n > 0 {
        lemma_outline_elements(elements, (n - 1) as nat, rest, value, doc, depth);
        assert(outlines(elements, depth)[n - 1] == outline(elements[n - 1], depth));
    }
}

/// What a statement declares can be read from its node and the three levels below it.
pub proof fn lemma_outline_declared(statement: SyntaxModel, doc: Option<Seq<char>>)
    ensures
        declared(outline(statement, 3), doc) == declared(statement, doc),
{
    lemma_outline_children(statement, 2);
    lemma_outline_modifiers(statement.children, 2);
    lemma_outline_command_modifiers(statement.children, 2);
    lemma_outline_operands(statement.children, 2);
    if statement.kind == "function_definition"@ {
        lemma_outline_first(statement.children, "function_declaration"@, 2);
        if let Some(declaration) = first_of_kind(statement.children, "function_declaration"@) {
            lemma_outline_children(declaration, 1);
            lemma_outline_operands(declaration.children, 1);
            lemma_outline_first(declaration.children, "parameters"@, 1);
            if let Some(parameters) = first_of_kind(declaration.children, "parameters"@) {
                lemma_outline_children(parameters, 0);
                lemma_outline_operands(parameters.children, 0);
                lemma_outline_texts(operands(parameters.children), 0);
            }
        }
    } else if statement.kind == "command_statement"@ {
        lemma_outline_first(statement.children, "command_name"@, 2);
    } else if statement.kind == "let_statement"@ {
        let parts = operands(statement.children);
        if parts.len() >= 4 {
            lemma_outline_children(parts[1], 1);
            lemma_outline_operands(parts[1].children, 1);
            lemma_outline_first(parts[1].children, ";"@, 1);
            let elements = operands(parts[1].children);
            let rest = first_of_kind(parts[1].children, ";"@) is Some;
            lemma_outline_elements(elements, elements.len(), rest, parts[3].text, doc, 1);
        }
    } else if statement.kind == "call_statement"@ {
        lemma_outline_first(statement.children, "call_expression"@, 2);
        if let Some(call) = first_of_kind(statement.children, "call_expression"@) {
            lemma_outline_children(call, 1);
            lemma_outline_operands(call.children, 1);
            let parts = operands(call.children);
            if parts.len() >= 2 {
                lemma_outline_children(parts[0], 0);
            }
        }
    }
}

/// A declaration with this documentation in place of its own.
pub open spec fn with_doc(node: VimNodeModel, doc: Option<Seq<char>>) -> VimNodeModel {
    match node {
        VimNodeModel::StandaloneDocComment(_) => node,
        VimNodeModel::Function { name, args, modifiers, .. } => VimNodeModel::Function {
            name,
            args,
            modifiers,
            doc,
        },
        VimNodeModel::Command { name, modifiers, .. } => VimNodeModel::Command {
            name,
            modifiers,
            doc,
        },
        VimNodeModel::Variable { name, init_value_token, .. } => VimNodeModel::Variable {
            name,
            init_value_token,
            doc,
        },
        VimNodeModel::Flag { name, default_value_token, .. } => VimNodeModel::Flag {
            name,
            default_value_token,
            doc,
        },
    }
}

/// The declarations, each with this documentation in place of its own.
pub open spec fn all_with_doc(nodes: Seq<VimNodeModel>, doc: Option<Seq<char>>) -> Seq<
    VimNodeModel,
> {
    nodes.map_values(|n: VimNodeModel| with_doc(n, doc))
}

proof fn lemma_element_doc(
    elements: Seq<SyntaxModel>,
    n: nat,
    rest: bool,
    value: Seq<char>,
    doc: Option<Seq<char>>,
)
    ensures
        element_nodes(elements, n, rest, value, doc) == all_with_doc(
            element_nodes(elements, n, rest, value, None),
            doc,
        ),
        forall|i: int|
            0 <= i < element_nodes(elements, n, rest, value, None).len()
                ==> #[trigger] element_nodes(elements, n, rest, value, None)[i] is Variable,
    decreases n,
{
    if n > 0 {
        lemma_element_doc(elements, (n - 1) as nat, rest, value, doc);
    }
    assert(element_nodes(elements, n, rest, value, doc) =~= all_with_doc(
        element_nodes(elements, n, rest, value, None),
        doc,
    ));
}

/// Documentation does not change what a statement declares: with it, the same is declared in the
/// same order, each with that documentation. No statement declares a doc comment.
pub proof fn law_doc_changes_no_declaration(statement: SyntaxModel, doc: Option<Seq<char>>)
    ensures
        declared(statement, doc) == all_with_doc(declared(statement, None), doc),
        forall|i: int|
            0 <= i < declared(statement, None).len() ==> !(#[trigger] declared(
                statement,
                None,
            )[i] is StandaloneDocComment),
{
    if statement.kind == "let_statement"@ {
        let parts = operands(statement.children);
        if parts.len() >= 4 {
            let elements = operands(parts[1].children);
            let rest = first_of_kind(parts[1].children, ";"@) is Some;
            lemma_element_doc(elements, elements.len(), rest, parts[3].text, doc);
        }
    }
    assert(declared(statement, doc) =~= all_with_doc(declared(statement, None), doc));
}

} // verus!
