//! How the items of a module come from its statements and its blocks of comments, said of the
//! kinds, rows and columns of the nodes.
//!
//! The nodes of a module can be split up into statements and blocks of comments, from the first
//! node to the last. The laws here say what each of these adds, so that together they fix the items
//! of every module.
use crate::comments::{doc_text, source_texts};
use crate::data::VimNodeModel;
use crate::module::{
    block_doc, block_start, continues, is_attached, items, items_at, items_before,
    law_parts_that_are_apart, module_of, statement_doc,
};
use crate::syntax::SyntaxModel;
use crate::treenodes::declared;
use vstd::prelude::*;

verus! {

/// Whether `b` starts on the line below the start of `a`, in the same column.
pub open spec fn starts_below(a: SyntaxModel, b: SyntaxModel) -> bool {
    b.row == a.row + 1 && b.column == a.column
}

/// Whether these are comments, of which each starts on the line below the one before, in the same
/// column. There can be any number of them.
pub open spec fn is_block(nodes: Seq<SyntaxModel>) -> bool {
    &&& nodes.len() > 0
    &&& forall|i: int| 0 <= i < nodes.len() ==> (#[trigger] nodes[i]).kind == "comment"@
    &&& forall|i: int, j: int|
        0 <= i < nodes.len() && j == i + 1 && j < nodes.len() ==> starts_below(
            #[trigger] nodes[i],
            #[trigger] nodes[j],
        )
}

/// Whether nodes end with a comment that starts on the line above `next`, in the same column.
pub open spec fn reach_down_to(nodes: Seq<SyntaxModel>, next: SyntaxModel) -> bool {
    nodes.len() > 0 && nodes.last().kind == "comment"@ && starts_below(nodes.last(), next)
}

/// Whether the text of a node starts with two quotation marks.
pub open spec fn starts_with_two_quotes(node: SyntaxModel) -> bool {
    node.text.len() >= 2 && node.text[0] == '"' && node.text[1] == '"'
}

/// The text of the documentation in a block of comments that starts with two quotation marks.
pub open spec fn text_of_block(block: Seq<SyntaxModel>) -> Seq<char> {
    doc_text(block.map_values(|n: SyntaxModel| n.text))->0
}

proof fn lemma_block_doc(block: Seq<SyntaxModel>)
    requires
        block.len() > 0,
    ensures
        doc_text(source_texts(block)) is Some <==> starts_with_two_quotes(block[0]),
        doc_text(source_texts(block)) is Some ==> doc_text(source_texts(block)) == Some(
            text_of_block(block),
        ),
{
    let comments = source_texts(block);
    assert(comments[0] == block[0].text);
    let text = block[0].text;
    if text.len() >= 2 {
        assert(text.take(2)[0] == text[0]);
        assert(text.take(2)[1] == text[1]);
        if starts_with_two_quotes(block[0]) {
            assert(text.take(2) =~= seq!['"', '"']);
        }
    }
}

proof fn lemma_start_of_block(block: Seq<SyntaxModel>, rest: Seq<SyntaxModel>, k: int)
    requires
        is_block(block),
        0 <= k < block.len(),
    ensures
        block_start(block + rest, k) == 0,
    decreases k,
{
    let nodes = block + rest;
    if k > 0 {
        assert(nodes[k] == block[k] && nodes[k - 1] == block[k - 1]);
        assert(starts_below(block[k - 1], block[k]));
        assert(continues(nodes, k));
        lemma_start_of_block(block, rest, k - 1);
    }
}

proof fn lemma_lines_of_block(block: Seq<SyntaxModel>, rest: Seq<SyntaxModel>, n: int)
    requires
        is_block(block),
        0 <= n < block.len(),
    ensures
        items_before(block + rest, n).len() == 0,
    decreases n,
{
    let nodes = block + rest;
    if n > 0 {
        lemma_lines_of_block(block, rest, n - 1);
        assert(nodes[n] == block[n] && nodes[n - 1] == block[n - 1]);
        assert(starts_below(block[n - 1], block[n]));
        assert(continues(nodes, n));
        assert(items_at(nodes, n - 1).len() == 0);
    }
}

proof fn lemma_text_of_block(block: Seq<SyntaxModel>, rest: Seq<SyntaxModel>)
    requires
        is_block(block),
    ensures
        block_doc(block + rest, block.len() - 1) == doc_text(source_texts(block)),
{
    lemma_start_of_block(block, rest, block.len() - 1);
    assert((block + rest).subrange(0, block.len() as int) =~= block);
}

proof fn lemma_one_statement(statement: SyntaxModel)
    requires
        statement.kind != "comment"@,
    ensures
        items(seq![statement]) == declared(statement, None),
{
    let nodes = seq![statement];
    assert(items_before(nodes, 0).len() == 0);
    assert(statement_doc(nodes, 0) is None);
    assert(items_before(nodes, 1) =~= declared(statement, None));
}

/// A block that nothing is right below.
proof fn lemma_block_alone(block: Seq<SyntaxModel>)
    requires
        is_block(block),
    ensures
        items(block) == match doc_text(source_texts(block)) {
            Some(text) => seq![VimNodeModel::StandaloneDocComment(text)],
            None => Seq::<VimNodeModel>::empty(),
        },
{
    let none = Seq::<SyntaxModel>::empty();
    let last = block.len() - 1;
    assert(block + none =~= block);
    lemma_lines_of_block(block, none, last);
    lemma_text_of_block(block, none);
    assert(block[last].kind == "comment"@);
    assert(items(block) =~= items_at(block, last));
}

/// A block that a statement is right below.
proof fn lemma_block_and_statement(block: Seq<SyntaxModel>, statement: SyntaxModel)
    requires
        is_block(block),
        statement.kind != "comment"@,
        starts_below(block.last(), statement),
    ensures
        declared(statement, None).len() > 0 ==> items(block + seq![statement]) == declared(
            statement,
            doc_text(source_texts(block)),
        ),
        declared(statement, None).len() == 0 ==> items(block + seq![statement]) == items(block),
{
    let rest = seq![statement];
    let nodes = block + rest;
    let last = block.len() - 1;
    lemma_lines_of_block(block, rest, last);
    lemma_text_of_block(block, rest);
    assert(nodes[last] == block[last]);
    assert(nodes[last + 1] == statement);
    assert(block[last].kind == "comment"@);
    assert(!continues(nodes, last + 1));
    assert(is_attached(nodes, last) == (declared(statement, None).len() > 0));
    assert(items_before(nodes, last + 1) =~= items_at(nodes, last));
    assert(items(nodes) =~= items_at(nodes, last) + items_at(nodes, last + 1));
    if declared(statement, None).len() > 0 {
        assert(items(nodes) =~= declared(statement, doc_text(source_texts(block))));
    } else {
        lemma_block_alone(block);
        assert(items(nodes) =~= items(block));
    }
}

proof fn lemma_three_parts(a: Seq<SyntaxModel>, b: Seq<SyntaxModel>, c: Seq<SyntaxModel>)
    requires
        b.len() > 0,
        !reach_down_to(a, b[0]),
        c.len() == 0 || !reach_down_to(b, c[0]),
    ensures
        items(a + b + c) == items(a) + items(b) + items(c),
{
    law_parts_that_are_apart(a, b);
    assert((a + b).last() == b.last());
    law_parts_that_are_apart(a + b, c);
}

/// What begins with a statement begins with what that declares.
proof fn lemma_statement_first(statement: SyntaxModel, rest: Seq<SyntaxModel>)
    requires
        statement.kind != "comment"@,
    ensures
        items(seq![statement] + rest) == declared(statement, None) + items(rest),
{
    lemma_one_statement(statement);
    assert(seq![statement].last() == statement);
    law_parts_that_are_apart(seq![statement], rest);
}

/// No nodes have no items.
pub proof fn law_no_nodes()
    ensures
        items(Seq::<SyntaxModel>::empty()) == Seq::<VimNodeModel>::empty(),
{
}

/// A statement that no comment is right above adds what it declares, without documentation.
pub proof fn law_statement_without_a_comment(
    before: Seq<SyntaxModel>,
    statement: SyntaxModel,
    after: Seq<SyntaxModel>,
)
    requires
        statement.kind != "comment"@,
        !reach_down_to(before, statement),
    ensures
        items(before + seq![statement] + after) == items(before) + declared(statement, None) + items(
            after,
        ),
{
    assert(seq![statement].last() == statement);
    lemma_three_parts(before, seq![statement], after);
    lemma_one_statement(statement);
}

/// A doc comment, however long, belongs to the statement right below it, if that declares
/// something: all that the statement declares has the text of the comment as its documentation, and
/// the comment adds nothing else.
pub proof fn law_doc_belongs_to_the_statement_below(
    before: Seq<SyntaxModel>,
    block: Seq<SyntaxModel>,
    statement: SyntaxModel,
    after: Seq<SyntaxModel>,
)
    requires
        is_block(block),
        starts_with_two_quotes(block[0]),
        !reach_down_to(before, block[0]),
        statement.kind != "comment"@,
        starts_below(block.last(), statement),
        declared(statement, None).len() > 0,
    ensures
        items(before + block + seq![statement] + after) == items(before) + declared(
            statement,
            Some(text_of_block(block)),
        ) + items(after),
{
    let own = block + seq![statement];
    assert(own.last() == statement && own[0] == block[0]);
    lemma_three_parts(before, own, after);
    assert(before + block + seq![statement] + after =~= before + own + after);
    lemma_block_and_statement(block, statement);
    lemma_block_doc(block);
}

/// A doc comment stands alone if nothing is right below it, or only a statement that declares
/// nothing. It is then an item of its own, between those before and those after it.
pub proof fn law_doc_stands_alone(
    before: Seq<SyntaxModel>,
    block: Seq<SyntaxModel>,
    after: Seq<SyntaxModel>,
)
    requires
        is_block(block),
        starts_with_two_quotes(block[0]),
        !reach_down_to(before, block[0]),
        after.len() == 0 || !starts_below(block.last(), after[0]) || (after[0].kind != "comment"@
            && declared(after[0], None).len() == 0),
    ensures
        items(before + block + after) == items(before) + seq![
            VimNodeModel::StandaloneDocComment(text_of_block(block)),
        ] + items(after),
{
    lemma_around_block(before, block, after);
    lemma_block_alone(block);
    lemma_block_doc(block);
}

/// An ordinary comment adds nothing, and leaves what is below it as it is.
pub proof fn law_ordinary_comment_adds_nothing(
    before: Seq<SyntaxModel>,
    block: Seq<SyntaxModel>,
    after: Seq<SyntaxModel>,
)
    requires
        is_block(block),
        !starts_with_two_quotes(block[0]),
        !reach_down_to(before, block[0]),
        after.len() == 0 || !starts_below(block.last(), after[0]) || after[0].kind != "comment"@,
    ensures
        items(before + block + after) == items(before) + items(after),
{
    lemma_block_doc(block);
    lemma_block_alone(block);
    if after.len() > 0 && starts_below(block.last(), after[0]) && declared(after[0], None).len()
        > 0 {
        let statement = after[0];
        let rest = after.skip(1);
        let own = block + seq![statement];
        assert(own.last() == statement && own[0] == block[0]);
        lemma_three_parts(before, own, rest);
        assert(before + block + after =~= before + own + rest);
        lemma_block_and_statement(block, statement);
        lemma_statement_first(statement, rest);
        assert(seq![statement] + rest =~= after);
        assert(items(before + block + after) =~= items(before) + items(after));
    } else {
        lemma_around_block(before, block, after);
        assert(items(before) + items(block) + items(after) =~= items(before) + items(after));
    }
}

proof fn lemma_around_block(
    before: Seq<SyntaxModel>,
    block: Seq<SyntaxModel>,
    after: Seq<SyntaxModel>,
)
    requires
        is_block(block),
        !reach_down_to(before, block[0]),
        after.len() == 0 || !starts_below(block.last(), after[0]) || (after[0].kind != "comment"@
            && declared(after[0], None).len() == 0),
    ensures
        items(before + block + after) == items(before) + items(block) + items(after),
{
    if after.len() > 0 && starts_below(block.last(), after[0]) {
        let statement = after[0];
        let rest = after.skip(1);
        let own = block + seq![statement];
        assert(own.last() == statement && own[0] == block[0]);
        lemma_three_parts(before, own, rest);
        assert(before + block + after =~= before + own + rest);
        lemma_block_and_statement(block, statement);
        lemma_statement_first(statement, rest);
        assert(seq![statement] + rest =~= after);
        assert(items(after) =~= items(rest));
    } else {
        lemma_three_parts(before, block, after);
    }
}

/// If the first item of a module is a doc comment that belongs to no declaration, that is the
/// documentation of the module, whatever follows it, and the other items are its nodes. Otherwise
/// the module has no documentation, and all items are its nodes. In neither case does the first
/// node of a module without documentation stand for a doc comment.
pub proof fn law_documentation_of_a_module(tree: SyntaxModel)
    ensures
        module_of(tree).path is None,
        items(tree.children).len() == 0 ==> module_of(tree).doc is None && module_of(
            tree,
        ).nodes.len() == 0,
        items(tree.children).len() > 0 ==> match items(tree.children)[0] {
            VimNodeModel::StandaloneDocComment(text) => module_of(tree).doc == Some(text)
                && module_of(tree).nodes == items(tree.children).skip(1),
            _ => module_of(tree).doc is None && module_of(tree).nodes == items(tree.children),
        },
        module_of(tree).doc is None && module_of(tree).nodes.len() > 0 ==> !(module_of(
            tree,
        ).nodes[0] is StandaloneDocComment),
{
}

} // verus!
