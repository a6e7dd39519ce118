[package]
name = "tablebot"
version = "0.1.0"
edition = "2021"
publish = false

[dependencies]
rand = "*"
chrono = "*"
redis = "*"
log = "*"
env_logger = "*"
dotenv = "*"
