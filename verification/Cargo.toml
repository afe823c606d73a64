[package]
name = "avt"
version = "0.1.0"
edition = "2021"
publish = false

[dependencies]
anyhow = "1"
clap = { version = "4", features = ["derive"] }
env_logger = "0.11"
fontdue = "0.9"
gifski = { version = "1", default-features = false }
imgref = "1"
log = "0.4"
resvg = "*"
rgb = "0.8"
serde = { version = "1", features = ["derive"] }
serde_json = "1"
