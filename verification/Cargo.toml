[package]
name = "rust_runtime"
version = "0.1.0"
edition = "2021"
publish = false

[dependencies]
nix = "0.20"
procfs = "0.9"
clap = { version = "3", features = ["derive"] }
env_logger = "0.9"
log = "0.4"
prctl = "1"
anyhow = "1"

[dev-dependencies]
nix = "0.20"
