[package]
name = "random_restaurant"
version = "0.1.0"
edition = "2021"
publish = false

[dependencies]
anyhow = "=1.0.104"
bytes = "=1.12.1"
rand = "=0.9.5"
serde_json = "=1.0.151"
spin-sdk = "=7.0.0"
