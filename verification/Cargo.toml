[package]
name = "pallet_task"
version = "0.1.0"
edition = "2021"
publish = false

[dependencies]
sp-crypto-hashing = { version = "=0.1.0", default-features = false }
