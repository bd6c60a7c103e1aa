[package]
name = "diff_push"
version = "0.1.0"
edition = "2021"
publish = false

[dependencies]
aes-gcm = "0.10"
base64 = "0.13"
ece = "*"
hkdf = "0.12"
p256 = { version = "0.13", features = ["ecdh", "ecdsa"] }
rand = "0.8"
scraper = "*"
serde = { version = "1", features = ["derive"] }
serde_json = "1"
sha2 = "0.10"
