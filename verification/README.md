# vim-plugin-metadata

A library that reads metadata of Vim plugins: the functions, commands, variables and flags that the
modules of a plugin declare, with the documentation in their doc comments. It is written in Verus,
and what its functions return is stated in their contracts and proved.

## Layout

- `src/` is the verified library.
  - `parser.rs`: `VimParser`, which parses a module or the files of a plugin.
  - `plugin.rs`: which files of a plugin are read, and the order of their modules.
  - `laws.rs`: what several calls of a parser have to do with each other.
  - `module.rs`: which comments document which statements.
  - `treenodes.rs`: what a statement declares.
  - `comments.rs`, `literal.rs`, `text.rs`: doc comments, string literals and text.
  - `syntax.rs`: the syntax tree as plain values; `data.rs`: the metadata.
  - `treesitter.rs`: the calls into the `tree-sitter` and `tree-sitter-vim` crates. What is claimed
    of them is not proved; each claim stands in the comment and the contract of its item.
- `tests/` holds the tests.
- `app/` reads files and directories and hands their contents to the library.

## Doc comments

A doc comment is a block of comments, one below the other at the same indentation, whose first line
starts with two quotation marks. It documents the statement right below it, at the same indentation,
if that statement declares something. Otherwise it stands alone, and if it comes before anything
else that the module declares, it documents the module.
