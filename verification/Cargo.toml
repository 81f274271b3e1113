[package]
name = "solana_vanity"
version = "0.1.0"
edition = "2021"
publish = false

[dependencies]
bs58 = "*"
clap = { version = "*", features = ["derive"] }
num_cpus = "*"
rayon = "*"
solana-sdk = "*"
