[package]
name = "garbling_core"
version = "0.1.0"
edition = "2021"
publish = false

[dependencies]
anyhow = "1"
rand = "0.8"
rand_chacha = "0.3"
risc0-zkvm = { version = "1", default-features = false }
serde = { version = "1", features = ["derive"] }
serde_bytes = "0.11"
sha2 = "0.10"
