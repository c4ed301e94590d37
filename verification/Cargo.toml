[package]
name = "room_coordinator"
version = "0.1.0"
edition = "2021"
publish = false

[dependencies]
serde = { version = "1", features = ["derive"] }
serde_json = "1"
tokio = { version = "1", features = ["sync", "rt", "rt-multi-thread", "macros", "net"] }
futures = "0.3"
futures-util = "0.3"
lapin = "*"
chrono = "0.4"
env_logger = "*"
tokio-tungstenite = "*"
