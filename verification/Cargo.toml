[package]
name = "muse"
version = "0.1.0"
edition = "2021"
publish = false

[dependencies]
chrono = "0.4"
serde = { version = "1", features = ["derive"] }
serde_json = "1"
bytemuck = { version = "1", features = ["derive"] }
egui = "0.26"
tokio = { version = "1", features = ["rt-multi-thread", "sync", "time", "macros"] }
tokio-tungstenite = "0.21"
futures-util = "0.3"
pollster = "0.3"
env_logger = "0.10"
rfd = { version = "0.14", default-features = false, features = ["xdg-portal", "tokio"] }
