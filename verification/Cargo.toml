[package]
name = "mechatyper"
version = "0.1.0"
edition = "2021"
publish = false

[dependencies]
tree-sitter = "=0.20.10"
tree-sitter-python = "=0.20.4"
tree-sitter-rust = "=0.20.4"
anyhow = "=1.0.104"
colored = "=2.2.0"
dotenv = "=0.15.0"
openai = "=1.0.0-alpha.12"
schemars = "=0.8.22"
serde = { version = "=1.0.229", features = ["derive"] }
serde_json = "=1.0.154"
tokio = { version = "=1.54.1", features = ["rt-multi-thread", "macros"] }
