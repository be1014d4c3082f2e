[package]
name = "fetter_mcp"
version = "0.1.0"
edition = "2021"
publish = false

[dependencies]
fetter = "*"
serde = { version = "1", features = ["derive"] }
serde_json = "1"
rmcp = { version = "*", features = ["server", "macros", "transport-streamable-http-server"] }
axum = "*"
tokio = { version = "1", features = ["full"] }
anyhow = "1"
tracing = "*"
tracing-subscriber = { version = "*", features = ["env-filter"] }
