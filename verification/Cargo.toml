[package]
name = "termote"
version = "0.1.0"
edition = "2021"
publish = false

[dependencies]
axum = { version = "0.7", features = ["ws"] }
base64 = "0.22"
dirs = "5"
dotenvy = "0.15"
futures-util = { version = "0.3", features = ["sink"] }
portable-pty = "0.8"
regex = "1"
reqwest = { version = "0.12", default-features = false, features = ["rustls-tls"] }
rfd = "0.14"
serde = { version = "1", features = ["derive"] }
serde_json = "1"
tokio = { version = "1", features = ["full"] }
tower-http = { version = "0.5", features = ["fs", "cors"] }
tracing = "0.1"
tracing-appender = "0.2"
tracing-subscriber = { version = "0.3", features = ["env-filter"] }
urlencoding = "2"
uuid = { version = "1", features = ["v4"] }
