[package]
name = "vibe-hal"
version = "0.1.0"
edition = "2021"
publish = false

[dependencies]
serde = { version = "1", features = ["derive"] }
serde_yaml = "0.9"
thiserror = "1"
serialport = { version = "4", default-features = false }
rustypot = "*"
