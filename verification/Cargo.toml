[package]
name = "messagepack"
version = "0.1.0"
edition = "2021"
publish = false

[dependencies]
serde = "1"
num-traits = { version = "0.2", default-features = false }
