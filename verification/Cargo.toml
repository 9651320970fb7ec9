[package]
name = "blert_analysis"
version = "0.1.0"
edition = "2021"
publish = false

[dependencies]
async-channel = "*"
env_logger = "*"
log = "*"
serde = { version = "*", features = ["derive"] }
serde_json = "*"
tokio = { version = "*", features = ["full"] }
toml = "*"
uuid = { version = "*", features = ["v4"] }
