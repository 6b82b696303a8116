[package]
name = "rustcroft"
version = "0.1.0"
edition = "2021"
publish = false

[dependencies]
serde_json = "*"
futures-channel = "*"
futures-util = "*"
tokio = { version = "*", features = ["full"] }
tokio-tungstenite = "*"
tungstenite = "*"
log = "*"
simple_logger = "*"
