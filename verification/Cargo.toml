[package]
name = "mcproxy"
version = "0.1.0"
edition = "2021"
publish = false

[dependencies]
regex = "=1.13.1"
fuzzy-matcher = "=0.3.7"
serde = { version = "=1.0.229", features = ["derive"] }
serde_json = "=1.0.154"
rmcp = { version = "=0.2.1", features = ["client", "transport-child-process", "transport-streamable-http-client", "__reqwest", "transport-streamable-http-server"] }
tokio = { version = "=1.54.1", features = ["full"] }
axum = "=0.8.9"
uuid = { version = "=1.29.0", features = ["v4"] }
tracing = "=0.1.44"
tracing-subscriber = { version = "=0.3.23", features = ["env-filter", "json"] }
anyhow = "=1.0.104"
futures = "=0.3.34"
libc = "=0.2.191"
reqwest = { version = "=0.12.28", default-features = false }
