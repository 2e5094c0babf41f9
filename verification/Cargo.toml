[package]
name = "mc_crypto_ring_signature"
version = "0.1.0"
edition = "2021"
publish = false

[dependencies]
curve25519-dalek = { version = "4.1.3", features = ["rand_core", "serde"] }
zeroize = "1"
rand_core = "0.6"
serde = { version = "1", features = ["derive"] }

[dev-dependencies]
rand_hc = "0.3"
