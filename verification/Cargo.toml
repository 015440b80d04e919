[package]
name = "suite_b"
version = "0.1.0"
edition = "2021"
publish = false

[dependencies]
p256 = { version = "*", features = ["ecdh"] }
p384 = { version = "*", features = ["ecdh"] }
sha1 = "*"
sha2 = "*"

[dev-dependencies]
ecdsa = "*"
signature = "*"
