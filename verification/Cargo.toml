[package]
name = "coldstart"
version = "0.1.0"
edition = "2021"
publish = false

[dependencies]
anyhow = "1"
aws-config = "1"
aws-sdk-cloudwatchlogs = "1"
aws-sdk-lambda = "1"
chrono = "0.4"
clap = { version = "4", features = ["derive"] }
log = "0.4"
simple_logger = "*"
tabled = "*"
tokio = { version = "1", features = ["macros", "rt-multi-thread", "time"] }
uuid = { version = "1", features = ["v4"] }
