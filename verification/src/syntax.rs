//! The syntax tree of a module, as plain values.
use vstd::prelude::*;

verus! {

/// A node of the syntax tree: what it is called in the grammar, where it starts, the source text
/// that it covers, and its children in the order of the source.
#[derive(Debug, PartialEq, Eq)]
pub struct SyntaxNode {
    pub kind: String,
    pub row: usize,
    pub column: usize,
    pub text: String,
    pub children: Vec<SyntaxNode>,
}

/// The mathematical value of a [`SyntaxNode`].
pub struct SyntaxModel {
    pub kind: Seq<char>,
    pub row: nat,
    pub column: nat,
    pub text: Seq<char>,
    pub children: Seq<SyntaxModel>,
}

impl View for SyntaxNode {
    type V = SyntaxModel;

    open spec fn view(&self) -> SyntaxModel
        decreases self,
    {
        SyntaxModel {
            kind: self.kind@,
            row: self.row as nat,
            column: self.column as nat,
            text: self.text@,
            children: Seq::new(
                self.children@.len(),
                |i: int|
                    if 0 <= i < self.children@.len() {
                        self.children@[i].view()
                    } else {
                        arbitrary()
                    },
            ),
        }
    }
}

/// The values of a list of nodes.
pub open spec fn syntax_models(nodes: Seq<SyntaxNode>) -> Seq<SyntaxModel> {
    nodes.map_values(|n: SyntaxNode| n@)
}

/// The children of a node have the values that its own value lists.
pub proof fn lemma_children(node: &SyntaxNode)
    ensures
        node@.children == syntax_models(node.children@),
{
    reveal_with_fuel(<SyntaxNode as View>::view, 2);
    assert(node@.children =~= syntax_models(node.children@));
}

/// The upper levels of a tree: the node itself and `depth` levels of descendants.
pub open spec fn outline(tree: SyntaxModel, depth: nat) -> SyntaxModel
    decreases depth,
{
    SyntaxModel {
        children: if depth == 0 {
            Seq::empty()
        } else {
            tree.children.map_values(|c: SyntaxModel| outline(c, (depth - 1) as nat))
        },
        ..tree
    }
}

/// The upper levels of each of some trees.
pub open spec fn outlines(trees: Seq<SyntaxModel>, depth: nat) -> Seq<SyntaxModel> {
    trees.map_values(|t: SyntaxModel| outline(t, depth))
}

/// The value of a node tells all that the node holds.
pub proof fn law_value_of_a_syntax_node(node: &SyntaxNode)
    ensures
        node@.kind == node.kind@,
        node@.row == node.row,
        node@.column == node.column,
        node@.text == node.text@,
        node@.children.len() == node.children@.len(),
        forall|i: int|
            0 <= i < node.children@.len() ==> node@.children[i] == (#[trigger] node.children@[i])@,
{
    lemma_children(node);
}

/// The values of a list of nodes are those of the nodes, in its order.
pub proof fn law_values_of_syntax_nodes(nodes: Seq<SyntaxNode>)
    ensures
        syntax_models(nodes).len() == nodes.len(),
        forall|i: int| 0 <= i < nodes.len() ==> syntax_models(nodes)[i] == (#[trigger] nodes[i])@,
{
}

} // verus!
