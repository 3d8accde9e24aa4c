[package]
name = "cube_api"
version = "0.1.0"
edition = "2021"
publish = false

[dependencies]
anyhow = "1"
axum = "0.7"
base64 = "0.22"
serde = { version = "1", features = ["derive"] }
serde_json = "1"
tokio = { version = "1", features = ["macros", "net", "process", "rt-multi-thread", "time"] }
tracing = "0.1"
utoipa = "4"
uuid = { version = "1", features = ["v4"] }
