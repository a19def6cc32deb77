[package]
name = "opentelemetry-application-insights"
version = "0.1.0"
edition = "2021"
publish = false

[dependencies]
futures-util = "0.3"
http = "0.2"
opentelemetry = { version = "0.20", features = ["metrics"] }
opentelemetry-http = "0.9"
serde = { version = "1", features = ["derive"] }
serde_json = "1"
sysinfo = { version = "0.29", default-features = false }
