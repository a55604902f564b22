[package]
name = "doomslug"
version = "0.1.0"
edition = "2021"
publish = false

[dependencies]
ed25519-dalek = "=2.2.0"
near-crypto = "=0.30.3"
near-primitives = "=0.30.3"
serde = { version = "=1.0.229", features = ["derive"] }
