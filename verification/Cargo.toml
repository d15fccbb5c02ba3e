[package]
name = "workshop"
version = "0.1.0"
edition = "2021"
publish = false

[dependencies]
near-sdk = { version = "=4.1.1", default-features = false }
near-contract-standards = { version = "=4.1.1", default-features = false }
near-units = "=0.2.0"
serde_json = "=1.0.154"
anyhow = "=1.0.104"
tokio = { version = "=1.54.1", features = ["full"] }
workspaces = { version = "=0.7.0", default-features = false }
