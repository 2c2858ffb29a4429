[package]
name = "cargo_contract"
version = "0.1.0"
edition = "2021"
publish = false

[dependencies]
hex = "=0.4.3"
colored = "=2.2.0"
subxt-signer = { version = "=0.51.1", default-features = false, features = ["sr25519", "ecdsa", "std", "unstable-eth"] }
sp-crypto-hashing = "*"
serde = { version = "=1.0.229", features = ["derive"] }
serde_json = "=1.0.151"
anyhow = "=1.0.104"
