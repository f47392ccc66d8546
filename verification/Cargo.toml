[package]
name = "soltybet"
version = "0.1.0"
edition = "2021"
publish = false

[dependencies]
anchor-lang = "0.30"
anchor-spl = { version = "0.30", default-features = false, features = ["token"] }
borsh = "0.10"
ed25519-dalek = "1"
solana-program = "1.18"
