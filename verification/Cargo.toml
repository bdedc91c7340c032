[package]
name = "bllvm_sdk"
version = "0.1.0"
edition = "2021"
publish = false

[dependencies]
secp256k1 = { version = "0.28", features = ["rand-std"] }
sha2 = "0.10"
rand = "0.8"
hex = "0.4"
base64 = "0.21"
serde = { version = "1", features = ["derive"] }
serde_json = "1"
chrono = "0.4"
clap = { version = "4", features = ["derive"] }
thiserror = "1"
