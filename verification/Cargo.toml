[package]
name = "trident_fuzz"
version = "0.1.0"
edition = "2021"
publish = false

[dependencies]
hex = "=0.4.3"
rand = "=0.8.8"
serde = { version = "=1.0.229", features = ["derive"] }
serde_json = "=1.0.154"
toml = "=0.8.23"
prettytable-rs = "=0.10.0"
solana-sdk = "=2.3.1"
spl-token = "=8.0.0"
spl-token-2022 = "=8.0.1"
spl-associated-token-account = "7"
