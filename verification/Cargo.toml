[package]
name = "bufferpool"
version = "0.1.0"
edition = "2021"
publish = false

[dependencies]
serde = "*"
tokio = { version = "*", features = ["sync"] }
