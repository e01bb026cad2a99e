[package]
name = "mp4-atom"
version = "0.1.0"
edition = "2021"
publish = false

[dependencies]
bytes = "1"
num = "0.4"
serde = { version = "1", features = ["derive"] }
tokio = { version = "1", features = ["io-util"] }
tracing = "0.1"
