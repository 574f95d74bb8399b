[package]
name = "asm_lsp"
version = "0.1.0"
edition = "2021"
publish = false

[dependencies]
lsp-server = "0.7"
lsp-types = "0.95"
serde = { version = "1", features = ["derive"] }
serde_json = "1"
