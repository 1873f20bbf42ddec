[package]
name = "rackit"
version = "0.1.0"
edition = "2021"
publish = false

[dependencies]
clap = { version = "4", features = ["derive"] }
serde = { version = "1", features = ["derive"] }
serialport = { version = "4", default-features = false }
thiserror = "1"
toml = "0.8"
