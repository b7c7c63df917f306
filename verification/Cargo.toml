[package]
name = "pool"
version = "0.1.0"
edition = "2021"
publish = false

[dependencies]
soroban-sdk = { version = "=28.0.0", features = ["hazmat-address"] }
stellar-tokens = "=0.8.0"
stellar-access = "=0.8.0"
stellar-macros = "=0.8.0"
