[package]
name = "rover"
version = "0.1.0"
edition = "2021"
publish = false

[dependencies]
clap = { version = "4", features = ["derive"] }
env_logger = "0.11"
log = "0.4"
nalgebra = "0.33"
serde = { version = "1", features = ["derive"] }
serialport = { version = "4", default-features = false }
toml = "0.8"
