[package]
name = "obd-core"
version = "0.1.0"
edition = "2021"
publish = false

[dependencies]
serialport = { version = "4", default-features = false }
thiserror = "2"
log = "0.4"
clap = { version = "4", features = ["derive"] }
env_logger = "0.11"
