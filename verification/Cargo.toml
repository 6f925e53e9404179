[package]
name = "schema_forge"
version = "0.1.0"
edition = "2021"
publish = false

[dependencies]
docx-rs = "0.4"
mysql = "*"
serde = { version = "1", features = ["derive"] }
serde_json = "1"
