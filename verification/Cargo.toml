[package]
name = "gilbert"
version = "0.1.0"
edition = "2021"
publish = false

[dependencies]
semver = "1"
serde = { version = "1", features = ["derive"] }
serde_json = "1"
tokio = { version = "1", features = ["full"] }
tokio-util = { version = "0.7", features = ["codec"] }
tokio-rustls = "0.24"
tokio-tungstenite = "0.20"
axum = { version = "0.6", features = ["ws"] }
futures-util = "0.3"
rustls-pemfile = "1"
x509-parser = "0.15"
url = "2"
tracing = "0.1"
tracing-subscriber = { version = "0.3", features = ["registry"] }
