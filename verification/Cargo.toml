[package]
name = "event_ingest"
version = "0.1.0"
edition = "2021"
publish = false

[dependencies]
uuid = { version = "*", features = ["v4"] }
serde_json = "*"
aws-config = "*"
aws-sdk-s3 = "*"
lambda_runtime = "*"
tokio = { version = "*", features = ["macros", "rt"] }
tracing = "*"
tracing-subscriber = "*"
