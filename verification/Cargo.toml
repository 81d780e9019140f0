[package]
name = "webpong"
version = "0.1.0"
edition = "2021"
publish = false

[dependencies]
rand = "=0.8.8"
serde = { version = "=1.0.229", features = ["derive"] }
serde_json = "=1.0.154"
log = "=0.4.35"
env_logger = "=0.11.11"
tokio = { version = "=1.54.1", features = ["full"] }
tokio-tungstenite = "=0.30.0"
futures-util = "=0.3.34"
url = "=2.5.8"
ncollide2d = "=0.33.0"
quicksilver = { version = "=0.4.0", default-features = false, features = ["easy-log", "event-cache"] }
