[package]
name = "iflow_cli_action"
version = "0.1.0"
edition = "2021"
publish = false

[dependencies]
clap = { version = "*", features = ["derive", "env"] }
dirs = "*"
futures = "*"
iflow-cli-sdk-rust = "*"
serde_json = "*"
tokio = { version = "*", features = ["rt", "macros", "time"] }
tracing = "*"
tracing-subscriber = "*"
