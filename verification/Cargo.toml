[package]
name = "tas_optimizer"
version = "0.1.0"
edition = "2021"
publish = false

[dependencies]
hltas = "0.6"
rand = "=0.8.8"
serde = { version = "=1.0.229", features = ["derive"] }
