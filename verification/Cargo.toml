[package]
name = "reflectron"
version = "0.1.0"
edition = "2021"
publish = false

[dependencies]
chrono = "0.4"
clap = { version = "4", features = ["derive"] }
ron = "0.8"
serde = { version = "1", features = ["derive"] }
serde_yaml = "0.9"
sled = "0.34"
ssh2 = "0.9"
