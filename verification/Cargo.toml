[package]
name = "red"
version = "0.1.0"
edition = "2021"
publish = false

[dependencies]
ropey = "=1.6.1"
unicode-width = "=0.2.2"
strfmt = "=0.2.6"
detect-lang = "=0.1.5"
serde_json = "=1.0.154"
serde_yaml = "=0.9.34"
tree-sitter = "=0.25.10"
tree-sitter-rust = "=0.24.2"
tree-sitter-javascript = "=0.25.0"
tree-sitter-typescript = "=0.23.2"
tree-sitter-python = "=0.25.0"
tree-sitter-c-sharp = "=0.23.5"
tree-sitter-go = "=0.25.0"
tree-sitter-java = "=0.23.5"
tree-sitter-c = "=0.24.2"
tree-sitter-cpp = "=0.23.4"
tree-sitter-html = "=0.23.2"
tree-sitter-css = "=0.25.0"
tree-sitter-yaml = "=0.7.2"
tree-sitter-json = "=0.24.8"
tree-sitter-toml-ng = "=0.7.0"
tree-sitter-bash = "=0.25.1"
tree-sitter-md = "=0.5.4"
crossterm = "=0.28.1"
tokio = { version = "=1.54.1", features = ["full"] }
lsp-types = "=0.97.0"
serde = { version = "=1.0.229", features = ["derive"] }
toml = "=0.8.23"
notify = "*"
arboard = { version = "*", default-features = false }
