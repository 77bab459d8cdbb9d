[package]
name = "flang"
version = "0.1.0"
edition = "2021"
publish = false

[dependencies]
anyhow = "1"
clap = { version = "4", features = ["derive"] }
itertools = "*"
miette = { version = "7", features = ["fancy"] }
owo-colors = "4"
rustyline = { version = "*", features = ["derive"] }
serde = { version = "1", features = ["derive"] }
serde_json = "1"
tree-sitter = "*"
tree-sitter-language = "*"
