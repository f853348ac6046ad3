[package]
name = "peer_relay"
version = "0.1.0"
edition = "2021"
publish = false

[dependencies]
serde_json = "1"
url = "2"
log = "0.4"
env_logger = "*"
futures-channel = "0.3"
futures-util = { version = "0.3", features = ["sink"] }
tokio = { version = "1", features = ["macros", "rt-multi-thread", "net", "sync"] }
tokio-tungstenite = "*"
tungstenite = "*"
