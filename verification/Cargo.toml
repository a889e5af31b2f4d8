[package]
name = "bullposter"
version = "0.1.0"
edition = "2021"
publish = false

[dependencies]
sha2 = "=0.10.9"
solana-program = "=5.1.0"
solana-pubkey = { version = "=4.4.0", features = ["curve25519"] }
borsh = "=1.8.1"
spl-token = "=9.0.0"
spl-token-2022 = "=11.1.0"
spl-associated-token-account = "=8.0.0"
