[package]
name = "docx_parser"
version = "0.1.0"
edition = "2021"
publish = false

[dependencies]
docx-rust = "*"
serde = { version = "*", features = ["derive"] }
serde_json = "*"
