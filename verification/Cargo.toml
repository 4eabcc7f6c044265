[package]
name = "exonum-btc-anchoring"
version = "0.1.0"
edition = "2021"
publish = false

[dependencies]
anyhow = "1"
bitcoin = "0.23"
btc-transaction-utils = "0.9"
exonum = "1.0"
exonum-crypto = "1.0"
exonum-derive = "1.0"
exonum-merkledb = "1.0"
exonum-proto = "1.0"
failure = "0.1"
protobuf = "2"
serde = { version = "1", features = ["derive"] }
serde_derive = "1"

[dev-dependencies]
serde_json = "1"
