[package]
name = "obsidian_pool"
version = "0.1.0"
edition = "2021"
publish = false

[dependencies]
light-poseidon = "=0.2.0"
ark-bn254 = "=0.4.0"
anchor-lang = "=1.2.1"
anchor-spl = { version = "=1.2.1", default-features = false, features = ["token_2022", "solana-v3"] }
