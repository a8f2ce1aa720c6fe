[package]
name = "lighthouse_core"
version = "0.1.0"
edition = "2021"
publish = false

[dependencies]
rand = "0.8"
pem = "3"
secp256k1 = { version = "0.29", features = ["rand"] }
slog = "2"
libp2p-core = "*"
sha2 = "*"
bs58 = "*"
serde_json = "1"
