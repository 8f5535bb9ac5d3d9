[package]
name = "psd_watch"
version = "0.1.0"
edition = "2021"
publish = false

[dependencies]
psd = "*"
image = "*"
clap = { version = "*", features = ["derive"] }
notify = "*"
walkdir = "*"
log = "*"
pretty_env_logger = "*"
anyhow = "*"
