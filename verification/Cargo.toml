[package]
name = "pipe_game"
version = "0.1.0"
edition = "2021"
publish = false

[dependencies]
rand = "0.8"
actix = "0.13"
actix-files = "0.6"
actix-web = "4"
actix-web-actors = "4"
actix-web-httpauth = "0.8"
anyhow = "1"
async-mutex = "1"
clap = { version = "4", features = ["derive"] }
env_logger = "0.11"
futures = "0.3"
log = "0.4"
serde = { version = "1", features = ["derive"] }
serde_json = "1"
thiserror = "1"
