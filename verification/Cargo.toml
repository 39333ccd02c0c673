[package]
name = "license"
version = "0.1.0"
edition = "2021"
publish = false

[dependencies]
spdx = { version = "*", features = ["text"] }
toml = "0.8"
serde_json = "1"
serde_yaml = "*"
serde = { version = "1", features = ["derive"] }
dirs = "*"
confy = "*"
clap = { version = "4", features = ["derive"] }
clap_complete = "4"
anstyle = "1"
anyhow = "1"
chrono = "0.4"
