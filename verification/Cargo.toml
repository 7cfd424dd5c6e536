[package]
name = "aweos"
version = "0.1.0"
edition = "2021"
publish = false

[dependencies]
ed25519-dalek = "2"
hmac = "0.12"
sha2 = "0.10"
