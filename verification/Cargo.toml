[package]
name = "moza-rev"
version = "0.1.0"
edition = "2021"
publish = false

[dependencies]
clap = { version = "4", features = ["derive"] }
env_logger = "0.11"
log = "0.4"
serde = "1"
serde_json = { version = "1", features = ["preserve_order"] }
serialport = { version = "4", default-features = false }
