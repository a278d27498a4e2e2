[package]
name = "superconfig"
version = "0.1.0"
edition = "2021"
publish = false

[dependencies]
globset = "=0.4.21"
figment = { version = "=0.10.19", features = ["toml", "json", "yaml", "env"] }
serde = { version = "=1.0.229", features = ["derive"] }
serde_json = "=1.0.154"
toml = "=1.1.8"
serde_yml = "=0.0.13"
dashmap = "=6.2.1"
parking_lot = "=0.13.0"
walkdir = "=2.5.0"
dirs = "=7.0.0"
