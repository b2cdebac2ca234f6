[package]
name = "rtget"
version = "0.1.0"
edition = "2021"
publish = false

[dependencies]
argh = "0.1"
env_logger = "0.11"
futures-util = "0.3"
indicatif = "0.17"
log = "0.4"
reqwest = { version = "0.12", features = ["stream"] }
tokio = { version = "1", features = ["full"] }
url = "2"
windows-service = "0.7"
