[package]
name = "aion"
version = "0.1.0"
edition = "2021"
publish = false

[dependencies]
noise = { version = "0.8", default-features = false }
rand = "0.8"
