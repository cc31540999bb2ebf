[package]
name = "csv_schema"
version = "0.1.0"
edition = "2021"
publish = false

[dependencies]
anyhow = "*"
chrono = "*"
clap = { version = "*", features = ["derive"] }
csv = "*"
encoding_rs = "*"
env_logger = "*"
log = "*"
serde = { version = "*", features = ["derive"] }
serde_json = "*"
