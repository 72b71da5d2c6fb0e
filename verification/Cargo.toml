[package]
name = "blutgang"
version = "0.1.0"
edition = "2021"
publish = false

[dependencies]
serde_json = "1"
rand = "0.8"
tokio = { version = "1", features = ["sync", "rt", "time", "macros"] }
futures-util = { version = "0.3", features = ["sink"] }
tokio-tungstenite = "0.20"
reqwest = { version = "0.11", default-features = false }
