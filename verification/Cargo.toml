[package]
name = "ws_gateway"
version = "0.1.0"
edition = "2021"
publish = false

[dependencies]
tokio = { version = "*", features = ["rt-multi-thread", "net"] }
tokio-tungstenite = "*"
futures = "*"
futures-util = { version = "*", features = ["sink"] }
