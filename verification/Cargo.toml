[package]
name = "sudostake"
version = "0.1.0"
edition = "2021"
publish = false

[dependencies]
near-sdk = { version = "=5.30.0", features = ["non-contract-usage"] }
near-contract-standards = "=5.30.0"
sha2 = "=0.10.9"
hex = "=0.4.3"
borsh = { version = "=1.8.1", features = ["derive"] }
serde = { version = "=1.0.229", features = ["derive"] }
serde_json = "=1.0.154"
