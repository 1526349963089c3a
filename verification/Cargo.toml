[package]
name = "ht"
version = "0.1.0"
edition = "2021"
publish = false

[dependencies]
anyhow = "*"
clap = { version = "*", features = ["derive"] }
nix = { version = "*", features = ["term", "process", "signal", "fs"] }
tokio = { version = "*", features = ["full"] }
