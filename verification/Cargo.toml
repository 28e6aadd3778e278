[package]
name = "ed_strip"
version = "0.1.0"
edition = "2021"
publish = false

[dependencies]
glob = "=0.3.4"
tree-sitter = "=0.27.0"
tree-sitter-bash = "=0.25.1"
tree-sitter-c = "=0.24.2"
tree-sitter-c-sharp = "=0.23.5"
tree-sitter-cmake = "=0.7.5"
tree-sitter-cpp = "=0.23.4"
tree-sitter-css = "=0.25.0"
tree-sitter-go = "=0.25.0"
tree-sitter-hcl = "=1.1.0"
tree-sitter-html = "=0.23.2"
tree-sitter-ini = "=1.4.0"
tree-sitter-java = "=0.23.5"
tree-sitter-javascript = "=0.25.0"
tree-sitter-lua = "=0.5.0"
tree-sitter-make = "=1.1.1"
tree-sitter-objc = "=3.0.2"
tree-sitter-php = "=0.25.1"
tree-sitter-powershell = "=0.26.4"
tree-sitter-proto = "=0.6.0"
tree-sitter-python = "=0.25.0"
tree-sitter-ruby = "=0.23.1"
tree-sitter-rust = "=0.24.2"
tree-sitter-typescript = "=0.23.2"
tree-sitter-xml = "=0.7.0"
tree-sitter-yaml = "=0.7.2"
serde = { version = "=1.0.229", features = ["derive"] }
serde_json = "=1.0.151"
rayon = "*"
clap = { version = "*", features = ["derive"] }
