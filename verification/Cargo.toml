[package]
name = "authority_round"
version = "0.1.0"
edition = "2021"
publish = false

[dependencies]
rocksdb = { version = "*", default-features = false }
serde = { version = "1", features = ["derive"] }
serde_json = "1"
