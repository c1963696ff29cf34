[package]
name = "orchestrator"
version = "0.1.0"
edition = "2021"
publish = false

[dependencies]
uuid = { version = "1", features = ["v4"] }
http = "1"
bollard = "0.18"
tokio = { version = "1", features = ["full"] }
tokio-postgres = { version = "0.7", features = ["with-uuid-1", "with-chrono-0_4"] }
chrono = "0.4"
reqwest = "0.12"
tokio-rustls = "0.26"
tracing = "0.1"
tracing-subscriber = "0.3"
dotenv = "0.15"
