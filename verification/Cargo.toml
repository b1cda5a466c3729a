[package]
name = "prometheus-command-exporter"
version = "0.1.0"
edition = "2021"
publish = false

[dependencies]
actix-cors = "0.5"
actix-web = "3"
anyhow = "1"
clap = "2"
const_format = "0.2"
env_logger = "0.8"
log = "0.4"
prometheus = "0.13"
serde = { version = "1", features = ["derive"] }
serde_yaml = "0.8"
thiserror = "1"
