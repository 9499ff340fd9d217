[package]
name = "codebench"
version = "0.1.0"
edition = "2021"
publish = false

[dependencies]
serde_json = "=1.0.151"
csv = "=1.4.0"
clap = { version = "=4.6.7", features = ["derive"] }
