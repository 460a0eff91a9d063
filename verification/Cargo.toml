[package]
name = "rustgen"
version = "0.1.0"
edition = "2021"
publish = false

[dependencies]
convert_case = "0.4"
regex = "1"
serde = { version = "1", features = ["derive"] }
serde_yaml = "0.8"
