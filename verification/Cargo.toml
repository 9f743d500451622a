[package]
name = "portfolio_core"
version = "0.1.0"
edition = "2021"
publish = false

[dependencies]
bcrypt = "*"
axum = { version = "*", features = ["multipart"] }
tokio = { version = "*", features = ["rt-multi-thread", "macros", "net"] }
tower-sessions = "*"
tower-http = { version = "*", features = ["cors"] }
serde = { version = "*", features = ["derive"] }
serde_json = "*"
time = "*"
