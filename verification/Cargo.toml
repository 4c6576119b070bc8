[package]
name = "finvoroo_print_agent"
version = "1.1.6"
edition = "2021"
publish = false

[dependencies]
getrandom = "0.2"
hex = "0.4"
http = "1"
base64 = "0.22"
serde = { version = "1", features = ["derive"] }
serde_json = "1"
anyhow = "1"
tracing = "0.1"
tracing-subscriber = { version = "0.3", features = ["env-filter"] }
tokio = { version = "1", features = ["full"] }
axum = "0.7"
tower-http = { version = "0.5", features = ["cors", "limit"] }
once_cell = "1"
