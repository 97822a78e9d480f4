[package]
name = "rdcs"
version = "0.1.0"
edition = "2021"
publish = false

[dependencies]
rand = "=0.8.8"
hmac = "=0.12.1"
sha2 = "=0.10.9"
base64 = "=0.22.1"
serde = { version = "=1.0.229", features = ["derive"] }
serde_json = "=1.0.154"
clap = { version = "=4.6.7", features = ["derive", "env"] }
tokio = { version = "=1.54.1", features = ["full"] }
tracing = "=0.1.44"
tracing-subscriber = { version = "=0.3.23", features = ["env-filter"] }
anyhow = "=1.0.104"
thiserror = "=1.0.69"
uuid = { version = "=1.29.1", features = ["v4"] }
axum = { version = "*", features = ["ws"] }
redis = { version = "*", features = ["tokio-comp", "connection-manager"] }
futures-util = "*"
