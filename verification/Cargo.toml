[package]
name = "rust_lambda_s3_tagging_sqs"
version = "0.1.0"
edition = "2021"
publish = false

[dependencies]
aws-config = "*"
aws_lambda_events = "*"
aws-sdk-s3 = "*"
aws-sdk-sqs = "*"
lambda_runtime = "*"
serde = { version = "*", features = ["derive"] }
serde_json = "*"
tokio = { version = "*", features = ["macros", "rt"] }
tracing = "*"
tracing-subscriber = "*"
