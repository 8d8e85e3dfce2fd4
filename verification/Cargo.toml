[package]
name = "hokm"
version = "0.1.0"
edition = "2021"
publish = false

[dependencies]
rand = "0.8"
serde = { version = "1", features = ["derive"] }
actix = "*"
actix-web = "*"
actix-web-actors = "*"
env_logger = "*"
