[package]
name = "hello_metrics"
version = "0.1.0"
edition = "2021"
publish = false

[dependencies]
axum = "0.6"
axum-prometheus = "0.4"
tokio = { version = "1", features = ["full"] }
tower = "0.4"
tower-http = { version = "0.4", features = ["trace"] }
tracing = "0.1"
tracing-appender = "0.2"
tracing-subscriber = { version = "0.3", features = ["env-filter"] }
