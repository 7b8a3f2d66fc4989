[package]
name = "coral_statistics"
version = "0.1.0"
edition = "2021"
publish = false

[dependencies]
chrono = "0.4"
datafusion = { version = "*", default-features = false }
serde = { version = "1", features = ["derive"] }
serde_json = "1"
tracing = "0.1"
