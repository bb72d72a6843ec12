[package]
name = "metrics_notifier"
version = "0.1.0"
edition = "2021"
publish = false

[dependencies]
async-trait = "0.1"
bigdecimal = "*"
chrono = "0.4"
lambda_runtime = "0.4"
rusoto_cloudwatch = "*"
rusoto_core = "*"
rusoto_ec2 = "*"
serde = { version = "1", features = ["derive"] }
serde_json = "1"
tokio = { version = "1", features = ["macros", "rt-multi-thread"] }
