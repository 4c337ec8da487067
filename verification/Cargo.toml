[package]
name = "solana_vanity"
version = "0.1.0"
edition = "2021"
publish = false

[dependencies]
anyhow = "*"
bs58 = "*"
clap = { version = "*", features = ["derive"] }
console = "*"
indicatif = "*"
num_cpus = "*"
serde = { version = "*", features = ["derive"] }
serde_json = "*"
solana-sdk = "*"
tokio = { version = "*", features = ["rt-multi-thread", "macros"] }
