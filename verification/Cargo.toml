[package]
name = "repo_analyzer"
version = "0.1.0"
edition = "2021"
publish = false

[dependencies]
aho-corasick = "=1.1.5"
anyhow = "=1.0.104"
chrono = "=0.4.45"
clap = { version = "=4.6.7", features = ["derive"] }
comfy-table = "=8.0.1"
csv = "=1.4.0"
dashmap = "=6.2.1"
gix = { version = "=0.90.0", features = ["blame"] }
indicatif = "=0.18.6"
linguist = "=0.1.17"
memchr = "=2.8.3"
regex = "=1.13.1"
rusqlite = { version = "=0.41.1", features = ["bundled"] }
serde_json = "1"
tree-sitter = "=0.27.1"
tree-sitter-bash = "*"
tree-sitter-c-sharp = "*"
tree-sitter-cpp = "*"
tree-sitter-dart = "=0.3.0"
tree-sitter-go = "=0.25.0"
tree-sitter-java = "=0.23.5"
tree-sitter-javascript = "=0.25.0"
tree-sitter-kotlin-ng = "=1.1.0"
tree-sitter-php = "*"
tree-sitter-python = "=0.25.0"
tree-sitter-ruby = "*"
tree-sitter-rust = "=0.24.2"
tree-sitter-scala = "*"
tree-sitter-swift = "*"
tree-sitter-typescript = "=0.23.2"
