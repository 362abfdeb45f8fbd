[package]
name = "bevytor"
version = "0.1.0"
edition = "2021"
publish = false

[dependencies]
serde = { version = "1", features = ["derive"] }
serde_json = "1"
ron = "0.8"
dirs = "5"
libloading = "0.8"
