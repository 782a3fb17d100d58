[package]
name = "nog"
version = "0.1.0"
edition = "2021"
publish = false

[dependencies]
serde = { version = "=1.0.229", features = ["derive"] }
serde_json = "=1.0.154"
fuzzy-matcher = "=0.3.7"
clap = "=2.34.0"
