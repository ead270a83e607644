[package]
name = "saltyrtc_core"
version = "0.1.0"
edition = "2021"
publish = false

[dependencies]
crypto_box = "=0.9.1"
crypto_secretbox = "=0.1.1"
getrandom = "=0.4.3"
serde = "=1.0.229"
