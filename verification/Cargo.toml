[package]
name = "pointcloud_stream"
version = "0.1.0"
edition = "2021"
publish = false

[dependencies]
serde = { version = "1", features = ["derive"] }
serde_json = "1"
tokio = { version = "1", features = ["net", "sync", "rt", "rt-multi-thread", "macros", "time"] }
tokio-tungstenite = "*"
futures-util = { version = "0.3", features = ["sink", "std"] }
