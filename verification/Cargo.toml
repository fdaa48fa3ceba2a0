[package]
name = "lnurl"
version = "0.1.0"
edition = "2021"
publish = false

[dependencies]
bitcoin_hashes = "0.7"
hex = "0.4"
rand = "0.7"
secp256k1 = "0.17"
serde = { version = "1", features = ["derive"] }
