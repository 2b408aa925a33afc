[package]
name = "mdblog"
version = "0.1.0"
edition = "2021"
publish = false

[dependencies]
tree-sitter = "0.19"
tree-sitter-markdown = "0.7"
actix-web = "4"
actix-cors = "*"
env_logger = "*"
log = "0.4"
serde = { version = "1", features = ["derive"] }
thiserror = "1"
