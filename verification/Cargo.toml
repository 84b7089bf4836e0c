[package]
name = "moly"
version = "0.1.0"
edition = "2021"
publish = false

[dependencies]
serde = { version = "*", features = ["derive"] }
serde_json = "*"
chrono = "*"
uuid = { version = "*", features = ["v4"] }
unicode-segmentation = "*"
tokio = { version = "*", features = ["rt-multi-thread", "time", "net"] }
tokio-tungstenite = "*"
futures = "*"
async-stream = "*"
