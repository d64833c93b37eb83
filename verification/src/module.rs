//! A module as a whole: which comments document which statements, and what the module declares.
use crate::comments::{doc_text, opens_doc, read_doc, source_texts};
use crate::data::{node_models, optional_text, VimModule, VimModuleModel, VimNode, VimNodeModel};
use crate::syntax::{lemma_children, outline, outlines, syntax_models, SyntaxModel, SyntaxNode};
use crate::text::text_is;
use crate::treenodes::{
    all_with_doc, declared, law_doc_changes_no_declaration, lemma_outline_declared, read_declared,
};
use vstd::prelude::*;

verus! {

/// Whether a node is a comment.
pub open spec fn is_comment(node: SyntaxModel) -> bool {
    node.kind == "comment"@
}

/// Whether `b` starts on the line after the start of `a`, at the same indentation.
pub open spec fn is_below(a: SyntaxModel, b: SyntaxModel) -> bool {
    b.row == a.row + 1 && b.column == a.column
}

/// Whether node `k` continues the block of comments that node `k - 1` belongs to.
pub open spec fn continues(nodes: Seq<SyntaxModel>, k: int) -> bool {
    0 < k < nodes.len() && is_comment(nodes[k - 1]) && is_comment(nodes[k]) && is_below(
        nodes[k - 1],
        nodes[k],
    )
}

/// The index of the comment that opens the block of comments to which comment `k` belongs.
pub open spec fn block_start(nodes: Seq<SyntaxModel>, k: int) -> int
    decreases k,
{
    if continues(nodes, k) {
        block_start(nodes, k - 1)
    } else {
        k
    }
}

/// The documentation in the block of comments that ends with comment `k`.
pub open spec fn block_doc(nodes: Seq<SyntaxModel>, k: int) -> Option<Seq<char>> {
    doc_text(source_texts(nodes.subrange(block_start(nodes, k), k + 1)))
}

/// Whether the block of comments that ends with comment `k` belongs to the node after it: to a
/// statement right below it that declares something.
pub open spec fn is_attached(nodes: Seq<SyntaxModel>, k: int) -> bool {
    0 <= k && k + 1 < nodes.len() && is_comment(nodes[k]) && !is_comment(nodes[k + 1]) && is_below(
        nodes[k],
        nodes[k + 1],
    ) && declared(nodes[k + 1], None).len() > 0
}

/// The documentation that belongs to statement `k`.
pub open spec fn statement_doc(nodes: Seq<SyntaxModel>, k: int) -> Option<Seq<char>> {
    if is_attached(nodes, k - 1) {
        block_doc(nodes, k - 1)
    } else {
        None
    }
}

/// What node `k` adds to the items of its module: a statement adds what it declares, and the
/// last comment of a block adds the documentation in the block unless that belongs to a
/// statement.
pub open spec fn items_at(nodes: Seq<SyntaxModel>, k: int) -> Seq<VimNodeModel> {
    if !is_comment(nodes[k]) {
        declared(nodes[k], statement_doc(nodes, k))
    } else if continues(nodes, k + 1) || is_attached(nodes, k) {
        Seq::empty()
    } else {
        match block_doc(nodes, k) {
            Some(doc) => seq![VimNodeModel::StandaloneDocComment(doc)],
            None => Seq::empty(),
        }
    }
}

/// What the first `n` nodes of a module add to its items.
pub open spec fn items_before(nodes: Seq<SyntaxModel>, n: int) -> Seq<VimNodeModel>
    decreases n,
{
    if n <= 0 {
        Seq::empty()
    } else {
        items_before(nodes, n - 1) + items_at(nodes, n - 1)
    }
}

/// The items of a module, in the order of the source.
pub open spec fn items(nodes: Seq<SyntaxModel>) -> Seq<VimNodeModel> {
    items_before(nodes, nodes.len() as int)
}

/// Whether the first item is a doc comment that belongs to no declaration.
pub open spec fn leads_with_doc(items: Seq<VimNodeModel>) -> bool {
    items.len() > 0 && items[0] is StandaloneDocComment
}

/// A module with these items, which was read from no file. A doc comment that leads the items and
/// belongs to no declaration documents the module.
pub open spec fn module_of_items(items: Seq<VimNodeModel>) -> VimModuleModel {
    VimModuleModel {
        path: None,
        doc: if leads_with_doc(items) {
            Some(items[0]->StandaloneDocComment_0)
        } else {
            None
        },
        nodes: if leads_with_doc(items) {
            items.skip(1)
        } else {
            items
        },
    }
}

/// The module whose code has this syntax tree.
pub open spec fn module_of(tree: SyntaxModel) -> VimModuleModel {
    module_of_items(items(tree.children))
}

fn below(a: &SyntaxNode, b: &SyntaxNode) -> (r: bool)
    ensures
        r == is_below(a@, b@),
{
    b.row > 0 && b.row - 1 == a.row && b.column == a.column
}

/// Whether there is a node right below node `k`, and it is a comment or, if not `comment`, a
/// statement.
fn next_below(nodes: &Vec<SyntaxNode>, k: usize, comment: bool) -> (r: bool)
    requires
        k < nodes@.len(),
    ensures
        r == (k + 1 < nodes@.len() && is_comment(nodes@[k + 1]@) == comment && is_below(
            nodes@[k as int]@,
            nodes@[k + 1]@,
        )),
{
    nodes.len() - k > 1 && text_is(&nodes[k + 1].kind, "comment") == comment && below(
        &nodes[k],
        &nodes[k + 1],
    )
}

fn read_items(nodes: &Vec<SyntaxNode>) -> (r: Vec<VimNode>)
    ensures
        node_models(r@) == items(syntax_models(nodes@)),
{
    let ghost models = syntax_models(nodes@);
    let mut r: Vec<VimNode> = Vec::new();
    // Where the block of comments before node `k` starts, if there is one.
    let mut start: usize = 0;
    // The documentation that belongs to statement `k`.
    let mut doc: Option<String> = None;
    let mut k: usize = 0;
    proof {
        assert(node_models(r@) =~= items_before(models, 0));
    }
    while k < nodes.len()
        invariant
            k <= nodes@.len(),
            models == syntax_models(nodes@),
            start <= k,
            k > 0 && is_comment(models[k - 1]) ==> start == block_start(models, k - 1),
            optional_text(doc) == statement_doc(models, k as int),
            node_models(r@) == items_before(models, k as int),
        decreases nodes@.len() - k,
    {
        let ghost before = r@;
        let ghost old_k = k as int;
        let mut added: Vec<VimNode> = Vec::new();
        proof {
            assert(models[k as int] == nodes@[k as int]@);
            if k + 1 < nodes@.len() {
                assert(models[k + 1] == nodes@[k + 1]@);
            }
        }
        if !text_is(&nodes[k].kind, "comment") {
            added = read_declared(&nodes[k], &doc);
            doc = None;
        } else {
            let continued: bool = k > 0 && text_is(&nodes[k - 1].kind, "comment") && below(
                &nodes[k - 1],
                &nodes[k],
            );
            if !continued {
                start = k;
            }
            doc = None;
            proof {
                if k > 0 {
                    assert(models[k - 1] == nodes@[k - 1]@);
                }
                assert(continued == continues(models, k as int));
                assert(start == block_start(models, k as int));
                assert(node_models(added@) =~= Seq::<VimNodeModel>::empty());
            }
            if !next_below(nodes, k, true) {
                let block: Option<String> = read_doc(nodes, start, k + 1);
                if next_below(nodes, k, false) && read_declared(&nodes[k + 1], &None).len() > 0 {
                    doc = block;
                } else if let Some(text) = block {
                    added.push(VimNode::StandaloneDocComment(text));
                    proof {
                        assert(node_models(added@) =~= seq![
                            VimNodeModel::StandaloneDocComment(text@),
                        ]);
                    }
                }
            }
        }
        proof {
            assert(node_models(added@) == items_at(models, old_k));
        }
        let ghost gained = added@;
        r.append(&mut added);
        proof {
            assert(node_models(r@) =~= node_models(before) + node_models(gained));
        }
        k += 1;
    }
    r
}

/// Reads a module from the syntax tree of its code.
pub fn read_module(tree: &SyntaxNode) -> (r: VimModule)
    ensures
        r@ == module_of(tree@),
{
    proof {
        lemma_children(tree);
    }
    let mut nodes: Vec<VimNode> = read_items(&tree.children);
    let ghost all = nodes@;
    let leading: bool = nodes.len() > 0 && matches!(nodes[0], VimNode::StandaloneDocComment(_));
    proof {
        if all.len() > 0 {
            assert(node_models(all)[0] == all[0]@);
        }
    }
    if leading {
        let first: VimNode = nodes.remove(0);
        proof {
            assert(node_models(nodes@) =~= node_models(all).skip(1));
        }
        match first {
            VimNode::StandaloneDocComment(doc) => VimModule { path: None, doc: Some(doc), nodes },
            _ => VimModule { path: None, doc: None, nodes },
        }
    } else {
        VimModule { path: None, doc: None, nodes }
    }
}

proof fn lemma_outline_block_start(nodes: Seq<SyntaxModel>, k: int)
    requires
        k < nodes.len(),
    ensures
        block_start(outlines(nodes, 3), k) == block_start(nodes, k),
    decreases k,
{
    if continues(nodes, k) {
        lemma_outline_block_start(nodes, k - 1);
    }
}

proof fn lemma_block_start_range(nodes: Seq<SyntaxModel>, k: int)
    requires
        0 <= k,
    ensures
        0 <= block_start(nodes, k) <= k,
    decreases k,
{
    if continues(nodes, k) {
        lemma_block_start_range(nodes, k - 1);
    }
}

proof fn lemma_outline_block_doc(nodes: Seq<SyntaxModel>, k: int)
    requires
        0 <= k < nodes.len(),
    ensures
        block_doc(outlines(nodes, 3), k) == block_doc(nodes, k),
{
    lemma_outline_block_start(nodes, k);
    lemma_block_start_range(nodes, k);
    let start = block_start(nodes, k);
    assert(source_texts(outlines(nodes, 3).subrange(start, k + 1)) =~= source_texts(
        nodes.subrange(start, k + 1),
    ));
}

proof fn lemma_outline_attached(nodes: Seq<SyntaxModel>, k: int)
    ensures
        is_attached(outlines(nodes, 3), k) == is_attached(nodes, k),
{
    if 0 <= k && k + 1 < nodes.len() {
        lemma_outline_declared(nodes[k + 1], None);
    }
}

proof fn lemma_outline_items(nodes: Seq<SyntaxModel>, n: int)
    requires
        n <= nodes.len(),
    ensures
        items_before(outlines(nodes, 3), n) == items_before(nodes, n),
    decreases n,
{
    if n > 0 {
        let k = n - 1;
        lemma_outline_items(nodes, k);
        lemma_outline_attached(nodes, k);
        lemma_outline_attached(nodes, k - 1);
        lemma_outline_block_doc(nodes, k);
        if k > 0 {
            lemma_outline_block_doc(nodes, k - 1);
        }
        lemma_outline_declared(nodes[k], statement_doc(nodes, k));
    }
}

/// A module can be read from the root of the syntax tree of its code and the four levels below it.
pub proof fn lemma_outline_module(tree: SyntaxModel)
    ensures
        module_of(outline(tree, 4)) == module_of(tree),
{
    assert(outline(tree, 4).children =~= outlines(tree.children, 3));
    lemma_outline_items(tree.children, tree.children.len() as int);
}

/// The documentation and the nodes of a module together are its items: nothing is lost, and all
/// stays in the order of the source.
pub proof fn law_module_keeps_items(items: Seq<VimNodeModel>)
    ensures
        items == (match module_of_items(items).doc {
            Some(doc) => seq![VimNodeModel::StandaloneDocComment(doc)],
            None => Seq::<VimNodeModel>::empty(),
        }) + module_of_items(items).nodes,
{
    assert(items =~= (match module_of_items(items).doc {
        Some(doc) => seq![VimNodeModel::StandaloneDocComment(doc)],
        None => Seq::<VimNodeModel>::empty(),
    }) + module_of_items(items).nodes);
}

/// A module without documentation does not start with a doc comment of its own.
pub proof fn law_leading_doc_is_module_doc(tree: SyntaxModel)
    ensures
        module_of(tree).doc is None ==> !leads_with_doc(module_of(tree).nodes),
{
}

/// The documentation in a block of comments is found again: as an item of its own, or with every
/// declaration of the statement below, and there is such a declaration.
pub proof fn law_doc_is_kept(nodes: Seq<SyntaxModel>, k: int, doc: Seq<char>)
    requires
        0 <= k < nodes.len(),
        is_comment(nodes[k]),
        !continues(nodes, k + 1),
        block_doc(nodes, k) == Some(doc),
    ensures
        if is_attached(nodes, k) {
            &&& items_at(nodes, k).len() == 0
            &&& items_at(nodes, k + 1).len() > 0
            &&& items_at(nodes, k + 1) == all_with_doc(items_at(nodes, k + 1), Some(doc))
        } else {
            items_at(nodes, k) == seq![VimNodeModel::StandaloneDocComment(doc)]
        },
{
    if is_attached(nodes, k) {
        law_doc_changes_no_declaration(nodes[k + 1], Some(doc));
        assert(items_at(nodes, k + 1) =~= all_with_doc(items_at(nodes, k + 1), Some(doc)));
    }
}

/// Whether nodes that follow `a` can have nothing to do with a comment at its end.
pub open spec fn is_apart(a: Seq<SyntaxModel>, b: Seq<SyntaxModel>) -> bool {
    a.len() == 0 || b.len() == 0 || !is_comment(a.last()) || !is_below(a.last(), b[0])
}

proof fn lemma_block_start_left(a: Seq<SyntaxModel>, b: Seq<SyntaxModel>, k: int)
    requires
        k < a.len(),
    ensures
        block_start(a + b, k) == block_start(a, k),
    decreases k,
{
    if continues(a, k) {
        lemma_block_start_left(a, b, k - 1);
    }
}

proof fn lemma_block_start_right(a: Seq<SyntaxModel>, b: Seq<SyntaxModel>, k: int)
    requires
        is_apart(a, b),
        0 <= k < b.len(),
    ensures
        block_start(a + b, a.len() + k) == a.len() + block_start(b, k),
    decreases k,
{
    if continues(b, k) {
        lemma_block_start_right(a, b, k - 1);
    }
}

proof fn lemma_items_at_left(a: Seq<SyntaxModel>, b: Seq<SyntaxModel>, k: int)
    requires
        is_apart(a, b),
        0 <= k < a.len(),
    ensures
        items_at(a + b, k) == items_at(a, k),
{
    lemma_block_start_left(a, b, k);
    lemma_block_start_range(a, k);
    assert((a + b).subrange(block_start(a, k), k + 1) =~= a.subrange(block_start(a, k), k + 1));
    if k > 0 {
        lemma_block_start_left(a, b, k - 1);
        lemma_block_start_range(a, k - 1);
        assert((a + b).subrange(block_start(a, k - 1), k) =~= a.subrange(
            block_start(a, k - 1),
            k,
        ));
    }
}

proof fn lemma_items_at_right(a: Seq<SyntaxModel>, b: Seq<SyntaxModel>, k: int)
    requires
        is_apart(a, b),
        0 <= k < b.len(),
    ensures
        items_at(a + b, a.len() + k) == items_at(b, k),
{
    let n = a.len() as int;
    lemma_block_start_right(a, b, k);
    lemma_block_start_range(b, k);
    assert((a + b).subrange(n + block_start(b, k), n + k + 1) =~= b.subrange(
        block_start(b, k),
        k + 1,
    ));
    if k > 0 {
        lemma_block_start_right(a, b, k - 1);
        lemma_block_start_range(b, k - 1);
        assert((a + b).subrange(n + block_start(b, k - 1), n + k) =~= b.subrange(
            block_start(b, k - 1),
            k,
        ));
    }
}

proof fn lemma_items_before_left(a: Seq<SyntaxModel>, b: Seq<SyntaxModel>, n: int)
    requires
        is_apart(a, b),
        0 <= n <= a.len(),
    ensures
        items_before(a + b, n) == items_before(a, n),
    decreases n,
{
    if n > 0 {
        lemma_items_before_left(a, b, n - 1);
        lemma_items_at_left(a, b, n - 1);
    }
}

proof fn lemma_items_before_right(a: Seq<SyntaxModel>, b: Seq<SyntaxModel>, n: int)
    requires
        is_apart(a, b),
        0 <= n <= b.len(),
    ensures
        items_before(a + b, a.len() + n) == items(a) + items_before(b, n),
    decreases n,
{
    if n > 0 {
        lemma_items_before_right(a, b, n - 1);
        lemma_items_at_right(a, b, n - 1);
        assert(items_before(a + b, a.len() + n) =~= items(a) + items_before(b, n));
    } else {
        lemma_items_before_left(a, b, a.len() as int);
        assert(items(a) + items_before(b, 0) =~= items(a));
    }
}

/// Two parts of a module that are apart (with a blank line between a comment and what follows it,
/// for example) do not influence each other: the items of both are the items of the first and then
/// the items of the second.
pub proof fn law_parts_that_are_apart(a: Seq<SyntaxModel>, b: Seq<SyntaxModel>)
    requires
        is_apart(a, b),
    ensures
        items(a + b) == items(a) + items(b),
{
    lemma_items_before_right(a, b, b.len() as int);
}

/// What the statements among the first `n` nodes declare, without documentation.
pub open spec fn declared_before(nodes: Seq<SyntaxModel>, n: int) -> Seq<VimNodeModel>
    decreases n,
{
    if n <= 0 {
        Seq::empty()
    } else if is_comment(nodes[n - 1]) {
        declared_before(nodes, n - 1)
    } else {
        declared_before(nodes, n - 1) + declared(nodes[n - 1], None)
    }
}

/// Whether an item is a declaration.
pub open spec fn is_declaration(node: VimNodeModel) -> bool {
    !(node is StandaloneDocComment)
}

/// The declarations among some items, without their documentation.
pub open spec fn bare_declarations(items: Seq<VimNodeModel>) -> Seq<VimNodeModel> {
    all_with_doc(items.filter(|n: VimNodeModel| is_declaration(n)), None)
}

proof fn lemma_bare_concat(a: Seq<VimNodeModel>, b: Seq<VimNodeModel>)
    ensures
        bare_declarations(a + b) == bare_declarations(a) + bare_declarations(b),
{
    let keep = |n: VimNodeModel| is_declaration(n);
    Seq::filter_distributes_over_add(a, b, keep);
    assert(bare_declarations(a + b) =~= bare_declarations(a) + bare_declarations(b));
}

proof fn lemma_all_declarations(nodes: Seq<VimNodeModel>)
    requires
        forall|i: int| 0 <= i < nodes.len() ==> is_declaration(#[trigger] nodes[i]),
    ensures
        nodes.filter(|n: VimNodeModel| is_declaration(n)) == nodes,
    decreases nodes.len(),
{
    let keep = |n: VimNodeModel| is_declaration(n);
    if nodes.len() > 0 {
        let init = nodes.drop_last();
        assert(nodes =~= init.push(nodes.last()));
        init.lemma_filter_push(nodes.last(), keep);
        lemma_all_declarations(init);
    } else {
        assert(nodes.filter(keep) =~= nodes);
    }
}

proof fn lemma_bare_items_at(nodes: Seq<SyntaxModel>, k: int)
    requires
        0 <= k < nodes.len(),
    ensures
        bare_declarations(items_at(nodes, k)) == if is_comment(nodes[k]) {
            Seq::<VimNodeModel>::empty()
        } else {
            declared(nodes[k], None)
        },
{
    let keep = |n: VimNodeModel| is_declaration(n);
    let at = items_at(nodes, k);
    if is_comment(nodes[k]) {
        let none = Seq::<VimNodeModel>::empty();
        assert(none.filter(keep) =~= none);
        if at.len() > 0 {
            assert(at =~= none.push(at[0]));
            none.lemma_filter_push(at[0], keep);
        }
        assert(at.filter(keep) =~= none);
        assert(bare_declarations(at) =~= none);
    } else {
        let doc = statement_doc(nodes, k);
        law_doc_changes_no_declaration(nodes[k], doc);
        law_doc_changes_no_declaration(nodes[k], None);
        lemma_all_declarations(at);
        assert(all_with_doc(all_with_doc(declared(nodes[k], None), doc), None) =~= all_with_doc(
            declared(nodes[k], None),
            None,
        ));
    }
}

proof fn lemma_bare_items_before(nodes: Seq<SyntaxModel>, n: int)
    requires
        n <= nodes.len(),
    ensures
        bare_declarations(items_before(nodes, n)) == declared_before(nodes, n),
    decreases n,
{
    if n > 0 {
        lemma_bare_items_before(nodes, n - 1);
        lemma_bare_items_at(nodes, n - 1);
        lemma_bare_concat(items_before(nodes, n - 1), items_at(nodes, n - 1));
        assert(declared_before(nodes, n - 1) + Seq::<VimNodeModel>::empty() =~= declared_before(
            nodes,
            n - 1,
        ));
    } else {
        assert(bare_declarations(Seq::<VimNodeModel>::empty()) =~= Seq::<VimNodeModel>::empty());
    }
}

/// Comments document, and do nothing else: apart from documentation, the declarations of a module
/// are those of its statements, in the order of the source.
pub proof fn law_comments_only_document(nodes: Seq<SyntaxModel>)
    ensures
        bare_declarations(items(nodes)) == declared_before(nodes, nodes.len() as int),
{
    lemma_bare_items_before(nodes, nodes.len() as int);
}

proof fn lemma_block_start_is_comment(nodes: Seq<SyntaxModel>, k: int)
    requires
        0 <= k < nodes.len(),
        is_comment(nodes[k]),
    ensures
        is_comment(nodes[block_start(nodes, k)]),
    decreases k,
{
    if continues(nodes, k) {
        lemma_block_start_is_comment(nodes, k - 1);
    }
}

proof fn lemma_no_block_doc(nodes: Seq<SyntaxModel>, k: int)
    requires
        forall|i: int|
            0 <= i < nodes.len() && is_comment(#[trigger] nodes[i]) ==> !opens_doc(nodes[i].text),
        0 <= k < nodes.len(),
        is_comment(nodes[k]),
    ensures
        block_doc(nodes, k) is None,
{
    lemma_block_start_is_comment(nodes, k);
    lemma_block_start_range(nodes, k);
    let block = nodes.subrange(block_start(nodes, k), k + 1);
    assert(source_texts(block)[0] == nodes[block_start(nodes, k)].text);
}

proof fn lemma_ordinary_comments(nodes: Seq<SyntaxModel>, n: int)
    requires
        forall|i: int|
            0 <= i < nodes.len() && is_comment(#[trigger] nodes[i]) ==> !opens_doc(nodes[i].text),
        n <= nodes.len(),
    ensures
        items_before(nodes, n) == declared_before(nodes, n),
    decreases n,
{
    if n > 0 {
        lemma_ordinary_comments(nodes, n - 1);
        if is_comment(nodes[n - 1]) {
            lemma_no_block_doc(nodes, n - 1);
            assert(items_at(nodes, n - 1) =~= Seq::<VimNodeModel>::empty());
            assert(items_before(nodes, n) =~= items_before(nodes, n - 1));
        } else if is_attached(nodes, n - 2) {
            lemma_no_block_doc(nodes, n - 2);
        }
    }
}

/// Ordinary comments leave no trace: where no comment opens documentation, the items of a module
/// are what its statements declare, without documentation.
pub proof fn law_ordinary_comments_are_ignored(nodes: Seq<SyntaxModel>)
    requires
        forall|i: int|
            0 <= i < nodes.len() && is_comment(#[trigger] nodes[i]) ==> !opens_doc(nodes[i].text),
    ensures
        items(nodes) == declared_before(nodes, nodes.len() as int),
{
    lemma_ordinary_comments(nodes, nodes.len() as int);
}

} // verus!
