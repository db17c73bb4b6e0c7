[package]
name = "rdump"
version = "0.1.0"
edition = "2021"
publish = false

[dependencies]
glob = "0.3"
globset = "0.4"
regex = "1"
serde = { version = "1", features = ["derive"] }
serde_json = "1"
toml = "0.8"
chrono = "0.4"
clap = { version = "4", features = ["derive"] }
ignore = "0.4"
dunce = "1"
dirs = "5"
anyhow = "1"
