[package]
name = "ecdsa"
version = "0.1.0"
edition = "2021"
publish = false

[dependencies]
elliptic-curve = { version = "=0.8.5", features = ["dev", "zeroize"] }
hmac = "=0.10.1"
sha2 = "=0.9.9"
signature = { version = "=1.3.2", features = ["digest-preview", "rand-preview"] }
