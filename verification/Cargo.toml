[package]
name = "opensk"
version = "0.1.0"
edition = "2021"
publish = false

[dependencies]
aes = "=0.8.4"
byteorder = "=1.5.0"
crypto = { version = "=0.5.1", features = ["cipher", "digest", "elliptic-curve", "signature"] }
digest = "=0.7.6"
dilithium = "=0.1.2"
p256 = { version = "=0.13.2", features = ["ecdh", "ecdsa"] }
rand = "=0.4.6"
rand_core = "=0.10.1"
sha2 = "=0.10.9"
sha3 = "=0.7.3"
subtle = "=2.6.1"
wasefire = { version = "=0.8.1", features = ["api-rng"] }
zeroize = "=1.9.1"
