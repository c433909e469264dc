[package]
name = "lambda_scheduler"
version = "0.1.0"
edition = "2021"
publish = false

[dependencies]
clap = { version = "4", features = ["derive"] }
clap-cargo = "*"
miette = { version = "5", features = ["fancy"] }
tokio = { version = "1", features = ["macros", "rt-multi-thread", "sync"] }
tokio-graceful-shutdown = "0.13"
tracing = "0.1"
tracing-subscriber = { version = "0.3", features = ["env-filter"] }
watchexec = "2"
