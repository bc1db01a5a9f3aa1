[package]
name = "micro_tower"
version = "0.1.0"
edition = "2021"
publish = false

[dependencies]
bytes = "1"
serde_json = "1"
serde = { version = "1", features = ["derive"] }
tokio = { version = "1", features = ["full"] }
tokio-util = "0.7"
tracing = "0.1"
