[package]
name = "immutable_encryption"
version = "0.1.0"
edition = "2021"
publish = false

[dependencies]
sha2 = "*"
blake3 = "*"
hex = "*"
ring = "*"
pqcrypto-kyber = "*"
pqcrypto-traits = "*"
tokio = { version = "*", features = ["full"] }
serde = { version = "*", features = ["derive"] }
serde_json = "*"
toml = "*"
clap = "*"
anyhow = "*"
futures = "*"
