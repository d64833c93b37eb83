//! The parser of the `tree-sitter` crate, and how one of its trees becomes a [`SyntaxNode`].
//!
//! A tree is a collection of nodes: [`tree_content`] and [`node_content`] name what it holds. The
//! items marked as trusted say in terms of these names what each function of the outside crates
//! does. They are not proved.
use crate::syntax::{lemma_children, outline, SyntaxModel, SyntaxNode};
use tree_sitter::{Language, LanguageError, Node, Parser, Tree};
use vstd::prelude::*;
use vstd::utf8::encode_utf8;

verus! {

/// A parser of the `tree-sitter` crate.
#[verifier::external_type_specification]
#[verifier::external_body]
pub struct ExParser(tree_sitter::Parser);

/// A grammar that a parser can be given.
#[verifier::external_type_specification]
#[verifier::external_body]
pub struct ExLanguage(tree_sitter::Language);

/// The error of a grammar that a parser does not take.
#[verifier::external_type_specification]
#[verifier::external_body]
pub struct ExLanguageError(tree_sitter::LanguageError);

/// A syntax tree.
#[verifier::external_type_specification]
#[verifier::external_body]
pub struct ExTree(tree_sitter::Tree);

/// A node of a syntax tree.
#[verifier::external_type_specification]
#[verifier::external_body]
pub struct ExNode<'tree>(tree_sitter::Node<'tree>);

/// The nodes that a tree holds, from its root down.
pub uninterp spec fn tree_content(tree: Tree) -> SyntaxModel;

/// The text that a tree was made from.
pub uninterp spec fn tree_source(tree: Tree) -> Seq<char>;

/// A node of a tree and all that is below it.
pub uninterp spec fn node_content(node: Node<'_>) -> SyntaxModel;

/// The text that the tree of a node was made from.
pub uninterp spec fn node_source(node: Node<'_>) -> Seq<char>;

/// The grammar that a parser holds, if it was given one.
pub uninterp spec fn parser_language(parser: Parser) -> Option<Language>;

/// Whether a parser reads a whole text at once: it has no time limit, no cancellation flag and no
/// ranges to which it is confined, and it has not stopped within a text.
pub uninterp spec fn reads_whole_text(parser: Parser) -> bool;

/// The version of the interface for which a grammar was generated.
pub uninterp spec fn language_version(language: Language) -> int;

/// Whether a grammar is the one of Vim script.
pub uninterp spec fn is_vim_grammar(language: Language) -> bool;

/// Whether a parser with the grammar of Vim script can give this tree for this code. The grammar
/// asks the C library which characters are letters, so the tree is not fixed by the code alone.
pub uninterp spec fn is_syntax_of(code: Seq<char>, tree: SyntaxModel) -> bool;

/// Whether every position in a text has an offset that a tree can hold: a tree counts in bytes,
/// with 32 bits.
pub open spec fn fits_tree(code: Seq<char>) -> bool {
    encode_utf8(code).len() <= u32::MAX
}

/// Trusted: `tree_sitter::Parser::new` makes a parser without a grammar, time limit, cancellation
/// flag or range.
pub assume_specification[ tree_sitter::Parser::new ]() -> (parser: Parser)
    ensures
        parser_language(parser) is None,
        reads_whole_text(parser),
;

/// Trusted: `tree_sitter_vim::language` returns the grammar of Vim script, which was generated for
/// version 14 of the interface.
pub assume_specification[ tree_sitter_vim::language ]() -> (language: Language)
    ensures
        is_vim_grammar(language),
        language_version(language) == 14,
;

/// Trusted: `tree_sitter::Parser::set_language` takes a grammar of version 13 or 14, and leaves the
/// grammar of the parser as it is for any other. This is claimed for the grammar of Vim script,
/// which is compiled in; a grammar in WebAssembly would need a store that the parser may not have.
pub assume_specification[ tree_sitter::Parser::set_language ](
    parser: &mut Parser,
    language: &Language,
) -> (r: Result<(), LanguageError>)
    requires
        is_vim_grammar(*language),
    ensures
        r is Ok <==> 13 <= language_version(*language) <= 14,
        r is Ok ==> parser_language(*final(parser)) == Some(*language),
        r is Err ==> parser_language(*final(parser)) == parser_language(*old(parser)),
        reads_whole_text(*old(parser)) ==> reads_whole_text(*final(parser)),
;

/// Trusted: `tree_sitter::Parser::parse`, without an earlier tree, gives no tree if the parser has
/// no grammar. A parser that has the grammar of Vim script and reads a whole text at once gives a
/// tree for the code, and is ready to do so again.
#[verifier::external_body]
pub(crate) fn parse_text(parser: &mut Parser, code: &str) -> (r: Option<Tree>)
    requires
        fits_tree(code@),
    ensures
        parser_language(*final(parser)) == parser_language(*old(parser)),
        reads_whole_text(*old(parser)) ==> reads_whole_text(*final(parser)),
        parser_language(*old(parser)) is None ==> r is None,
        reads_whole_text(*old(parser)) && (parser_language(*old(parser)) matches Some(language)
            && is_vim_grammar(language)) ==> (r matches Some(tree) && is_syntax_of(
            code@,
            tree_content(tree),
        ) && tree_source(tree) == code@),
{
    parser.parse(code, None)
}

/// Trusted: `tree_sitter::Tree::root_node` returns the root of a tree.
#[verifier::external_body]
pub(crate) fn root_node(tree: &Tree) -> (node: Node<'_>)
    ensures
        node_content(node) == tree_content(*tree),
        node_source(node) == tree_source(*tree),
{
    tree.root_node()
}

/// Trusted: `tree_sitter::Node::kind` returns what a node is called in the grammar.
#[verifier::external_body]
pub(crate) fn node_kind(node: &Node<'_>) -> (kind: String)
    ensures
        kind@ == node_content(*node).kind,
{
    node.kind().to_owned()
}

/// Trusted: `tree_sitter::Node::start_position` returns the row and the column at which a node
/// starts.
#[verifier::external_body]
pub(crate) fn node_start(node: &Node<'_>) -> (start: (usize, usize))
    ensures
        start.0 == node_content(*node).row,
        start.1 == node_content(*node).column,
{
    let start = node.start_position();
    (start.row, start.column)
}

/// Trusted: `tree_sitter::Node::utf8_text` returns the part of the source that a node covers. Given
/// the text that the tree was made from, that part lies within it and is made of whole characters.
#[verifier::external_body]
pub(crate) fn node_text(node: &Node<'_>, code: &str) -> (text: String)
    requires
        code@ == node_source(*node),
        fits_tree(code@),
    ensures
        text@ == node_content(*node).text,
{
    node.utf8_text(code.as_bytes()).unwrap().to_owned()
}

/// Trusted: `tree_sitter::Node::children` walks over the children of a node in their order, with a
/// cursor from `tree_sitter::Node::walk`.
#[verifier::external_body]
pub(crate) fn node_children<'tree>(node: &Node<'tree>) -> (children: Vec<Node<'tree>>)
    ensures
        children@.map_values(|child: Node<'tree>| node_content(child)) == node_content(
            *node,
        ).children,
        forall|i: int|
            0 <= i < children@.len() ==> node_source(#[trigger] children@[i]) == node_source(*node),
{
    node.children(&mut node.walk()).collect()
}

/// Reads a node and `depth` levels of its descendants.
fn read_node(node: &Node<'_>, code: &str, depth: usize) -> (r: SyntaxNode)
    requires
        code@ == node_source(*node),
        fits_tree(code@),
    ensures
        r@ == outline(node_content(*node), depth as nat),
    decreases depth,
{
    let mut children: Vec<SyntaxNode> = Vec::new();
    let ghost content = node_content(*node);
    if depth > 0 {
        let nodes = node_children(node);
        let ghost contents = nodes@.map_values(|child: Node<'_>| node_content(child));
        let mut i: usize = 0;
        while i < nodes.len()
            invariant
                i <= nodes@.len(),
                depth > 0,
                code@ == node_source(*node),
                fits_tree(code@),
                contents == nodes@.map_values(|child: Node<'_>| node_content(child)),
                contents == content.children,
                forall|j: int|
                    0 <= j < nodes@.len() ==> node_source(#[trigger] nodes@[j]) == node_source(
                        *node,
                    ),
                children@.len() == i,
                forall|j: int|
                    0 <= j < i ==> (#[trigger] children@[j])@ == outline(
                        contents[j],
                        (depth - 1) as nat,
                    ),
            decreases nodes@.len() - i,
        {
            proof {
                assert(contents[i as int] == node_content(nodes@[i as int]));
            }
            children.push(read_node(&nodes[i], code, depth - 1));
            i += 1;
        }
    }
    let (row, column) = node_start(node);
    let r = SyntaxNode { kind: node_kind(node), row, column, text: node_text(node, code), children };
    proof {
        lemma_children(&r);
        assert(r@.children =~= outline(content, depth as nat).children);
    }
    r
}

/// Parses code and reads the root of its syntax tree and `depth` levels below it.
pub(crate) fn parse_outline(parser: &mut Parser, code: &str, depth: usize) -> (r: Option<
    SyntaxNode,
>)
    requires
        fits_tree(code@),
        reads_whole_text(*old(parser)),
        parser_language(*old(parser)) matches Some(language) ==> is_vim_grammar(language),
    ensures
        parser_language(*final(parser)) == parser_language(*old(parser)),
        reads_whole_text(*final(parser)),
        match r {
            Some(root) => parser_language(*old(parser)) is Some && exists|tree: SyntaxModel| #[trigger]
                is_syntax_of(code@, tree) && root@ == outline(tree, depth as nat),
            None => parser_language(*old(parser)) is None,
        },
{
    match parse_text(parser, code) {
        None => None,
        Some(tree) => {
            let root = root_node(&tree);
            Some(read_node(&root, code, depth))
        },
    }
}

} // verus!
