[package]
name = "nova"
version = "0.1.0"
edition = "2021"
publish = false

[dependencies]
regex = "=1.13.1"
serde = { version = "=1.0.229", features = ["derive"] }
serde_json = "=1.0.154"
minijinja = "=2.24.0"
reqwest = { version = "0.12", default-features = false, features = ["blocking"] }
