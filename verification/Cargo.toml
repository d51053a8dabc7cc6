[package]
name = "ashkorix"
version = "0.1.0"
edition = "2021"
publish = false

[dependencies]
regex = "1"
serde = { version = "1", features = ["derive"] }
serde_json = "1"
walkdir = "2"
toml = "0.8"
clap = { version = "4", features = ["derive"] }
