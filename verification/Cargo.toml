[package]
name = "weaver"
version = "0.1.0"
edition = "2021"
publish = false

[dependencies]
serde_json = "=1.0.154"
nix = { version = "=0.29.0", features = ["socket", "poll", "fs", "process", "signal", "user", "uio"] }
serde = { version = "=1.0.229", features = ["derive"] }
