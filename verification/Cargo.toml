[package]
name = "danny"
version = "0.1.0"
edition = "2021"
publish = false

[dependencies]
globset = "0.4"
serde = { version = "1", features = ["derive"] }
serde_json = "1"
toml = "0.8"
clap = { version = "4", features = ["derive"] }
chrono = { version = "0.4", features = ["serde"] }
dirs = "5"
glob = "0.3"
anyhow = "1"
colored = "2"
thiserror = "1"
ignore = "0.4"
