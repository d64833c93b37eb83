[package]
name = "vim-plugin-metadata"
version = "0.1.0"
edition = "2021"
publish = false

[dependencies]
tree-sitter = "=0.22.6"
tree-sitter-vim = "=0.4.0"
walkdir = "=2.5.0"
