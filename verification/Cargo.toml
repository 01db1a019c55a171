[package]
name = "palantir"
version = "0.1.0"
edition = "2021"
publish = false

[dependencies]
anyhow = "*"
clap = { version = "*", features = ["derive"] }
futures = "*"
futures-util = "*"
log = "*"
pretty_env_logger = "*"
rmp-serde = "*"
serde = { version = "*", features = ["derive"] }
serde_json = "*"
tokio = { version = "*", features = ["full"] }
tokio-tungstenite = "*"
toml = "*"
uuid = { version = "*", features = ["v4"] }
