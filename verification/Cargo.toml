[package]
name = "relay_core"
version = "0.1.0"
edition = "2021"
publish = false

[dependencies]
futures-channel = "*"
futures-util = "*"
tokio = { version = "*", features = ["macros", "rt-multi-thread", "net", "io-util", "io-std", "sync"] }
tokio-tungstenite = "*"
log = "*"
env_logger = "*"
