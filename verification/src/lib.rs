//! Metadata of Vim plugins: what the modules of a plugin declare, and how they document it.
//!
//! A module of Vim script is parsed into a syntax tree (`treesitter`). From the tree it is read
//! which statements declare something (`treenodes`), which comments are documentation
//! (`comments`), and to which declaration that documentation belongs (`module`). The modules of a
//! plugin are listed by the section of the plugin that they belong to (`plugin`). [`VimParser`]
//! puts this together.
//!
//! What these do is said once more, of the nodes, texts and entries themselves, in `declarations`,
//! `blocks` and `laws` and in the laws of each module.
pub mod blocks;
pub mod comments;
pub mod data;
pub mod declarations;
pub mod laws;
pub mod literal;
pub mod module;
pub mod parser;
pub mod plugin;
pub mod syntax;
pub mod text;
pub mod treenodes;
pub mod treesitter;

pub use data::{VimModule, VimNode, VimPlugin};
pub use parser::{Error, VimParser};
pub use plugin::{PluginEntry, WalkStep};
pub use syntax::SyntaxNode;
