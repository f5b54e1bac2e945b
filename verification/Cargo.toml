[package]
name = "dd"
version = "0.1.0"
edition = "2021"
publish = false

[dependencies]
tree-sitter = "*"
tree-sitter-lua = "*"
clap = "3"
wait-timeout = "*"
