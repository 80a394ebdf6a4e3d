[package]
name = "pty_engine"
version = "0.1.0"
edition = "2021"
publish = false

[dependencies]
portable-pty = "*"
dirs = "*"
serde = { version = "1", features = ["derive"] }
serde_json = "1"
ctrlc = "3"
