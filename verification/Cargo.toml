[package]
name = "preview_player"
version = "0.1.0"
edition = "2021"
publish = false

[dependencies]
clap = "3"
env_logger = "0.10"
futures = "0.3"
log = "0.4"
reqwest = { version = "0.11", features = ["json"] }
rodio = "0.17"
serde = { version = "1", features = ["derive"] }
tokio = { version = "1", features = ["full"] }
tokio-retry = "0.3"
