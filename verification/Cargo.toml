[package]
name = "poem_acme"
version = "0.1.0"
edition = "2021"
publish = false

[dependencies]
serde_json = "1"
sha2 = "0.10"
p256 = { version = "0.13", features = ["ecdsa"] }
base64 = "0.22"
