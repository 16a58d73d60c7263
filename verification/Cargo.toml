[package]
name = "restartables"
version = "0.4.1"
edition = "2021"
publish = false

[dependencies]
pin-project = "1"
reqwest = { version = "*", default-features = false }
