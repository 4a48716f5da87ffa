[package]
name = "messaging"
version = "0.1.0"
edition = "2021"
publish = false

[dependencies]
tari_crypto = "=0.24.0"
getrandom = "=0.4.3"
tokio = { version = "1", features = ["full"] }
