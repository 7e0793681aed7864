[package]
name = "detect_core"
version = "0.1.0"
edition = "2021"
publish = false

[dependencies]
anyhow = "*"
axum = "*"
base64 = "*"
blake3 = "*"
chrono = "*"
clap = { version = "*", features = ["derive", "env"] }
prometheus = "*"
rdkafka = "*"
redis = "*"
regex = "*"
ring = "*"
serde = { version = "*", features = ["derive"] }
serde_json = "*"
serde_yaml = "*"
sha2 = "*"
tokio = { version = "*", features = ["full"] }
tracing = "*"
tracing-subscriber = { version = "*", features = ["env-filter", "json"] }
uuid = { version = "*", features = ["v4"] }
