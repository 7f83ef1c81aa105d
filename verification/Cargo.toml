[package]
name = "ancient_append_vecs"
version = "0.1.0"
edition = "2021"
publish = false

[dependencies]
solana-sdk = { version = "*", default-features = false }
