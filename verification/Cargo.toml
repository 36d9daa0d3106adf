[package]
name = "stake_lend"
version = "0.1.0"
edition = "2021"
publish = false

[dependencies]
solana-program = "1.18"
spl-token = { version = "4", features = ["no-entrypoint"] }
borsh = { version = "1", features = ["derive"] }
