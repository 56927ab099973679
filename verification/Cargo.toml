[package]
name = "uvls"
version = "0.1.0"
edition = "2021"
publish = false

[dependencies]
dashmap = "5"
flexi_logger = { version = "*", features = ["async"] }
hashbrown = "0.14"
log = "0.4"
log-panics = "2"
ropey = "1"
serde_json = "1"
tokio = { version = "1", features = ["full"] }
tokio-util = "0.7"
tower-lsp = "0.20"
tree-sitter = "0.20"
walkdir = "2"
