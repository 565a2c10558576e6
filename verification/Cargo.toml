[package]
name = "presentation"
version = "0.1.0"
edition = "2021"
publish = false

[dependencies]
uuid = { version = "1", features = ["serde", "v4"] }
serde = "1"
http = "1"
axum = "0.8"
tokio = { version = "1", features = ["full"] }
tower-http = { version = "0.6", features = ["trace"] }
tracing = "0.1"
tracing-subscriber = { version = "0.3", features = ["env-filter", "json"] }
metrics = "*"
metrics-exporter-prometheus = "*"
problem_details = { version = "*", features = ["axum"] }
serde_json = "1"
anyhow = "1"
dotenv = "0.15"
validator = "*"
diesel = { version = "2", default-features = false }
