[package]
name = "daly-bms-exporter"
version = "0.1.0"
edition = "2021"
publish = false

[dependencies]
anyhow = "1"
axum = "0.8"
clap = { version = "4", features = ["derive"] }
hex = "0.4"
prometheus = { version = "0.14", default-features = false }
serde = { version = "1", features = ["derive"] }
serde_json = { version = "1", features = ["float_roundtrip"] }
serde_norway = "0.9"
thiserror = "2"
tokio = { version = "1", features = ["macros", "net", "rt", "signal", "time"] }
tower-http = { version = "0.6", features = ["catch-panic", "timeout"] }
tracing = "0.1"
tracing-subscriber = { version = "0.3", features = ["env-filter"] }
