[package]
name = "froklog"
version = "0.1.0"
edition = "2021"
publish = false

[dependencies]
arc-swap = "=1.9.3"
axum = { version = "=0.8.9", features = ["ws"] }
chrono = "=0.4.45"
chrono-tz = "=0.10.4"
crossbeam-channel = "=0.5.17"
iana-time-zone = "=0.1.65"
rand = "=0.8.8"
sentencepiece-rs = "=0.2.2"
serde = { version = "=1.0.229", features = ["derive"] }
serde_json = "=1.0.154"
tokio = { version = "=1.54.1", features = ["full"] }
toml = "=0.8.23"
tower-http = { version = "=0.6.11", features = ["cors"] }
tracing = "=0.1.44"
tracing-subscriber = { version = "=0.3.23", features = ["env-filter"] }

reqwest = { version = "0.12", default-features = false, features = ["blocking", "json"] }

[dev-dependencies]
tempfile = "=3.27.0"
