[package]
name = "syntax_tree"
version = "0.1.0"
edition = "2021"
publish = false

[dependencies]
arborium = { version = "=2.18.2", default-features = false, features = ["lang-markdown", "lang-yaml", "lang-python"] }
rangemap = "=1.8.0"
streaming-iterator = "=0.1.9"
serde = { version = "=1.0.229", features = ["derive"] }
serde_json = "=1.0.154"
anyhow = "=1.0.104"
