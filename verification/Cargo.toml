[package]
name = "container_utils"
version = "0.1.0"
edition = "2021"
publish = false

[dependencies]
anyhow = "*"
nix = { version = "*", features = ["fs", "process", "user"] }
