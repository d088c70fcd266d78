[package]
name = "api_manager"
version = "0.1.0"
edition = "2021"
publish = false

[dependencies]
serde = { version = "*", features = ["derive"] }
serde_json = "*"
chrono = { version = "*", features = ["serde"] }
uuid = { version = "*", features = ["v4"] }
tokio = { version = "*", features = ["rt-multi-thread", "macros", "sync", "time", "net"] }
axum = "*"
reqwest = { version = "*", default-features = false, features = ["json", "stream"] }
sqlx = { version = "*", default-features = false, features = ["runtime-tokio", "sqlite", "chrono"] }
futures-util = "*"
bytes = "*"
async-stream = "*"
anyhow = "*"
