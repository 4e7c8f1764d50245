[package]
name = "rusttorney"
version = "0.1.0"
edition = "2021"
publish = false

[dependencies]
bytes = "*"
tokio = { version = "*", features = ["full"] }
tokio-util = { version = "*", features = ["codec"] }
futures = "*"
anyhow = "*"
log = "*"
env_logger = "*"
serde = { version = "*", features = ["derive"] }
toml = "*"
