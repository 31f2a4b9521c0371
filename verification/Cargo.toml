[package]
name = "wsclient"
version = "0.1.0"
edition = "2021"
publish = false

[dependencies]
spin_sleep = "*"
serde = { version = "*", features = ["derive"] }
serde_json = "*"
log = "*"
env_logger = "*"
structopt = "*"
anyhow = "*"
tungstenite = "*"
