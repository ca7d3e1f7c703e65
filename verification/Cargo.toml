[package]
name = "ledger_programs"
version = "0.1.0"
edition = "2021"
publish = false

[dependencies]
solana-program = "*"

[dev-dependencies]
borsh = "*"
