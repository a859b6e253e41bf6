[package]
name = "codex_halo"
version = "0.1.8"
edition = "2021"
publish = false

[dependencies]
dirs = "6.0.0"
log = "0.4.35"
env_logger = "0.11.11"
notify = "8.2.1"
serde = { version = "1.0.229", features = ["derive"] }
serde_json = "1.0.154"
