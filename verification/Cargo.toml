[package]
name = "token_client"
version = "0.1.0"
edition = "2021"
publish = false

[dependencies]
solana-program = "=5.1.0"
solana-sdk = "=5.0.0"
solana-system-interface = { version = "=2.0.0", features = ["bincode"] }
spl-token-2022 = { version = "=11.1.0", features = ["no-entrypoint"] }
spl-associated-token-account = { version = "=8.0.0", features = ["no-entrypoint"] }
clap = "=4.6.7"
