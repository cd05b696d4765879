[package]
name = "pilot"
version = "0.1.0"
edition = "2021"
publish = false

[dependencies]
clap = { version = "4", features = ["derive"] }
reqwest = { version = "0.12", default-features = false }
serde_json = "1"
tokio = { version = "1", features = ["full"] }
tower-lsp = "0.20"
