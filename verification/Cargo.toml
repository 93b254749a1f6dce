[package]
name = "mail_core"
version = "0.1.0"
edition = "2021"
publish = false

[dependencies]
arc-swap = "*"
mail-send = { version = "*", default-features = false }
opentelemetry = "*"
opentelemetry-otlp = "*"
opentelemetry_sdk = { version = "*", features = ["rt-tokio"] }
opentelemetry-semantic-conventions = "*"
serde = { version = "*", features = ["derive"] }
tokio = { version = "*", features = ["rt", "sync"] }
tracing = "*"
tracing-appender = "*"
tracing-journald = "*"
tracing-opentelemetry = "*"
tracing-subscriber = { version = "*", features = ["env-filter"] }
