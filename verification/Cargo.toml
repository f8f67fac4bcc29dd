[package]
name = "rustway"
version = "0.1.0"
edition = "2021"
publish = false

[dependencies]
anyhow = "1"
async-trait = "0.1"
axum = "0.8"
axum-client-ip = "1"
axum-prometheus = "0.8"
bytes = "1"
dashmap = "6"
dotenvy = "0.15"
http = "1"
http-body-util = "0.1"
jsonwebtoken = "9"
moka = { version = "0.12", features = ["sync"] }
notify = "6"
reqwest = { version = "0.12", default-features = false }
serde = { version = "1", features = ["derive"] }
serde_yaml = "0.9"
thiserror = "1"
tokio = { version = "1", features = ["full"] }
tower-http = { version = "0.6", features = ["trace"] }
tracing = "0.1"
tracing-subscriber = "0.3"
url = "2"
uuid = { version = "1", features = ["v4"] }
