[package]
name = "padded_aes"
version = "0.1.0"
edition = "2021"
publish = false

[dependencies]
aes = "0.8"
risc0-zkvm = { version = "1", default-features = false, features = ["std"] }
serde = { version = "1", features = ["derive"] }
