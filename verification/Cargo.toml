[package]
name = "aurora_mcp"
version = "0.1.0"
edition = "2021"
publish = false

[dependencies]
chrono = "*"
axum = "*"
tokio = { version = "*", features = ["full"] }
tokio-stream = "*"
tokio-util = "*"
clap = { version = "*", features = ["derive"] }
anyhow = "*"
serde = { version = "*", features = ["derive"] }
serde_json = "*"
tracing = "*"
tracing-subscriber = { version = "*", features = ["env-filter"] }
tower-http = { version = "*", features = ["cors"] }
