[package]
name = "miden_helpers"
version = "0.1.0"
edition = "2021"
publish = false
rust-version = "1.95"

[dependencies]
ruint = "=1.21.1"
miden-crypto = "=0.28.1"
serde = { version = "=1.0.229", features = ["derive"] }
thiserror = "=2.0.21"
