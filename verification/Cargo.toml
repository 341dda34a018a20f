[package]
name = "mcservernap"
version = "0.1.0"
edition = "2021"
publish = false

[dependencies]
anyhow = "*"
base64 = "*"
clap = { version = "*", features = ["derive"] }
env_logger = "*"
image = "*"
log = "*"
rcon = { version = "*", features = ["rt-tokio"] }
regex = "*"
serde = { version = "*", features = ["derive"] }
serde_json = "*"
tokio = { version = "*", features = ["full"] }
toml = "*"
