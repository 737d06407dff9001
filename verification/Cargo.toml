[package]
name = "solana_tss"
version = "0.1.0"
edition = "2021"
publish = false

[dependencies]
bs58 = "0.4"
clap = { version = "3", features = ["derive"] }
curve25519-dalek = "3"
ed25519-dalek = "1"
sha2 = "0.9"
solana-sdk = "1"
spl-memo = "3"
