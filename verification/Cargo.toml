[package]
name = "kdf"
version = "0.1.0"
edition = "2021"
publish = false

[dependencies]
hmac = "0.7"
sha2 = "0.8"
