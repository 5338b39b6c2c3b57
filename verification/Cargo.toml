[package]
name = "pwrzv"
version = "1.0.0"
edition = "2021"
publish = false

[dependencies]
chrono = "*"
clap = "*"
serde = { version = "*", features = ["derive"] }
serde_json = "*"
serde_yaml = "*"
thiserror = "*"
tokio = { version = "*", features = ["rt-multi-thread", "macros", "process", "fs", "time"] }
