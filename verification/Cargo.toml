[package]
name = "stealer"
version = "0.1.0"
edition = "2021"
publish = false

[dependencies]
bytes = "1"
fancy-regex = "0.11"
oneshot = "0.1"
schemars = "0.8"
semver = "1"
serde = { version = "1", features = ["derive"] }
streammap-ext = "0.1"
tokio = { version = "1", features = ["full"] }
tokio-stream = "0.1"
tokio-util = { version = "0.7", features = ["io"] }
tracing = "0.1"
