[package]
name = "execution_processes"
version = "0.1.0"
edition = "2021"
publish = false

[dependencies]
anyhow = "1"
axum = { version = "0.8", features = ["ws"] }
futures-util = "0.3"
serde = { version = "1", features = ["derive"] }
serde_json = "1"
tokio = { version = "1", features = ["macros", "rt"] }
tracing = "0.1"
ts-rs = { version = "*", features = ["serde-json-impl", "uuid-impl"] }
uuid = { version = "1", features = ["serde"] }
