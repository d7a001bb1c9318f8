[package]
name = "cpp_linter"
version = "0.1.0"
edition = "2021"
publish = false

[dependencies]
clap = { version = "4", features = ["cargo"] }
tree-sitter = "0.22"
tree-sitter-cpp = "0.22"
