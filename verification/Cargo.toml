[package]
name = "titan-ipoverlay-client"
version = "0.1.0"
edition = "2021"
publish = false

[dependencies]
prost = "0.13"
url = "2"
serde = { version = "1", features = ["derive"] }
serde_json = "1"
tokio = { version = "1", features = ["full"] }
tokio-tungstenite = "0.24"
futures-util = "0.3"
reqwest = { version = "0.12", default-features = false }
dashmap = "6"
anyhow = "1"
log = "0.4"
env_logger = "0.11"
clap = "4"
tracing = "0.1"
