[package]
name = "sourcepawn_core"
version = "0.1.0"
edition = "2021"
publish = false

[dependencies]
lsp-types = "=0.94.1"
tree-sitter = "=0.20.10"

[dev-dependencies]
regex = "=1.13.1"
tempfile = "=3.27.0"
tree-sitter-sourcepawn = "=0.7.1"
