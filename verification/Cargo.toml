[package]
name = "uefi-runner"
version = "0.1.0"
edition = "2021"
publish = false

[dependencies]
anyhow = "1"
cargo_metadata = "*"
clap = "4"
toml = "*"
wait-timeout = "*"
