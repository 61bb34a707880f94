[package]
name = "midiseq"
version = "0.1.0"
edition = "2021"
publish = false

[dependencies]
bumpalo = { version = "=3.20.3", features = ["collections"] }
jack = "=0.6.6"
thiserror = "=1.0.69"
