//! What is known of a plugin: its modules, and the items that each module declares.
use std::path::PathBuf;
use vstd::prelude::*;

verus! {

/// A file path. It is carried along and handed back; nothing is claimed of it.
#[verifier::external_type_specification]
#[verifier::external_body]
pub struct ExPathBuf(std::path::PathBuf);

/// One item of a module of Vim script, in the order of its declaration.
#[derive(Debug, Clone, PartialEq, Eq)]
pub enum VimNode {
    /// A doc comment that belongs to no declaration.
    StandaloneDocComment(String),
    /// A function definition.
    Function { name: String, args: Vec<String>, modifiers: Vec<String>, doc: Option<String> },
    /// The definition of a user command.
    Command { name: String, modifiers: Vec<String>, doc: Option<String> },
    /// A variable that is given an initial value, as the source spells that value.
    Variable { name: String, init_value_token: String, doc: Option<String> },
    /// A plugin flag, with the expression of its default value if one is given.
    Flag { name: String, default_value_token: Option<String>, doc: Option<String> },
}

/// An individual module (a file) of Vim script code.
#[derive(Debug, Clone, PartialEq, Eq)]
pub struct VimModule {
    pub path: Option<PathBuf>,
    pub doc: Option<String>,
    pub nodes: Vec<VimNode>,
}

/// An entire Vim plugin.
#[derive(Debug, Clone, PartialEq, Eq)]
pub struct VimPlugin {
    pub content: Vec<VimModule>,
}

/// The mathematical value of a [`VimNode`].
pub enum VimNodeModel {
    StandaloneDocComment(Seq<char>),
    Function {
        name: Seq<char>,
        args: Seq<Seq<char>>,
        modifiers: Seq<Seq<char>>,
        doc: Option<Seq<char>>,
    },
    Command { name: Seq<char>, modifiers: Seq<Seq<char>>, doc: Option<Seq<char>> },
    Variable { name: Seq<char>, init_value_token: Seq<char>, doc: Option<Seq<char>> },
    Flag { name: Seq<char>, default_value_token: Option<Seq<char>>, doc: Option<Seq<char>> },
}

/// The mathematical value of a [`VimModule`].
pub struct VimModuleModel {
    pub path: Option<PathBuf>,
    pub doc: Option<Seq<char>>,
    pub nodes: Seq<VimNodeModel>,
}

/// The characters of each string.
pub open spec fn texts(strings: Seq<String>) -> Seq<Seq<char>> {
    strings.map_values(|s: String| s@)
}

/// The characters of an optional string.
pub open spec fn optional_text(s: Option<String>) -> Option<Seq<char>> {
    match s {
        Some(t) => Some(t@),
        None => None,
    }
}

impl View for VimNode {
    type V = VimNodeModel;

    open spec fn view(&self) -> VimNodeModel {
        match *self {
            VimNode::StandaloneDocComment(text) => VimNodeModel::StandaloneDocComment(text@),
            VimNode::Function { name, args, modifiers, doc } => VimNodeModel::Function {
                name: name@,
                args: texts(args@),
                modifiers: texts(modifiers@),
                doc: optional_text(doc),
            },
            VimNode::Command { name, modifiers, doc } => VimNodeModel::Command {
                name: name@,
                modifiers: texts(modifiers@),
                doc: optional_text(doc),
            },
            VimNode::Variable { name, init_value_token, doc } => VimNodeModel::Variable {
                name: name@,
                init_value_token: init_value_token@,
                doc: optional_text(doc),
            },
            VimNode::Flag { name, default_value_token, doc } => VimNodeModel::Flag {
                name: name@,
                default_value_token: optional_text(default_value_token),
                doc: optional_text(doc),
            },
        }
    }
}

/// The values of a list of nodes.
pub open spec fn node_models(nodes: Seq<VimNode>) -> Seq<VimNodeModel> {
    nodes.map_values(|n: VimNode| n@)
}

impl View for VimModule {
    type V = VimModuleModel;

    open spec fn view(&self) -> VimModuleModel {
        VimModuleModel {
            path: self.path,
            doc: optional_text(self.doc),
            nodes: node_models(self.nodes@),
        }
    }
}

/// The values of a list of modules.
pub open spec fn module_models(modules: Seq<VimModule>) -> Seq<VimModuleModel> {
    modules.map_values(|m: VimModule| m@)
}

impl View for VimPlugin {
    type V = Seq<VimModuleModel>;

    open spec fn view(&self) -> Seq<VimModuleModel> {
        module_models(self.content@)
    }
}

/// A copy of an optional string.
pub(crate) fn copy_text(s: &Option<String>) -> (r: Option<String>)
    ensures
        optional_text(r) == optional_text(*s),
{
    match s {
        Some(t) => Some(t.clone()),
        None => None,
    }
}

/// Whether an optional string holds this text.
pub open spec fn holds(s: Option<String>, text: Option<Seq<char>>) -> bool {
    match (s, text) {
        (Some(s), Some(text)) => s@ == text,
        (None, None) => true,
        _ => false,
    }
}

/// Whether strings hold these texts.
pub open spec fn all_hold(strings: Seq<String>, all: Seq<Seq<char>>) -> bool {
    strings.len() == all.len() && forall|i: int|
        0 <= i < strings.len() ==> (#[trigger] strings[i])@ == all[i]
}

/// The value of a node tells all that the node holds.
pub proof fn law_value_of_a_node(node: VimNode)
    ensures
        match node {
            VimNode::StandaloneDocComment(text) => node@ is StandaloneDocComment
                && node@->StandaloneDocComment_0 == text@,
            VimNode::Function { name, args, modifiers, doc } => {
                &&& node@ is Function
                &&& node@->Function_name == name@
                &&& all_hold(args@, node@->Function_args)
                &&& all_hold(modifiers@, node@->Function_modifiers)
                &&& holds(doc, node@->Function_doc)
            },
            VimNode::Command { name, modifiers, doc } => {
                &&& node@ is Command
                &&& node@->Command_name == name@
                &&& all_hold(modifiers@, node@->Command_modifiers)
                &&& holds(doc, node@->Command_doc)
            },
            VimNode::Variable { name, init_value_token, doc } => {
                &&& node@ is Variable
                &&& node@->Variable_name == name@
                &&& node@->init_value_token == init_value_token@
                &&& holds(doc, node@->Variable_doc)
            },
            VimNode::Flag { name, default_value_token, doc } => {
                &&& node@ is Flag
                &&& node@->Flag_name == name@
                &&& holds(default_value_token, node@->default_value_token)
                &&& holds(doc, node@->Flag_doc)
            },
        },
{
}

/// The value of a module tells all that the module holds, in its order.
pub proof fn law_value_of_a_module(module: VimModule)
    ensures
        module@.path == module.path,
        holds(module.doc, module@.doc),
        module@.nodes.len() == module.nodes@.len(),
        forall|i: int|
            0 <= i < module.nodes@.len() ==> module@.nodes[i] == (#[trigger] module.nodes@[i])@,
{
}

/// The value of a plugin tells all modules that the plugin lists, in its order.
pub proof fn law_value_of_a_plugin(plugin: VimPlugin)
    ensures
        plugin@.len() == plugin.content@.len(),
        forall|i: int|
            0 <= i < plugin.content@.len() ==> plugin@[i] == (#[trigger] plugin.content@[i])@,
{
}

/// The values of a list are those of its elements, in its order.
pub proof fn law_values_of_lists(
    text: Option<String>,
    strings: Seq<String>,
    nodes: Seq<VimNode>,
    modules: Seq<VimModule>,
)
    ensures
        holds(text, optional_text(text)),
        all_hold(strings, texts(strings)),
        node_models(nodes).len() == nodes.len(),
        forall|i: int| 0 <= i < nodes.len() ==> node_models(nodes)[i] == (#[trigger] nodes[i])@,
        module_models(modules).len() == modules.len(),
        forall|i: int|
            0 <= i < modules.len() ==> module_models(modules)[i] == (#[trigger] modules[i])@,
{
}

} // verus!
