[package]
name = "ambient_fs"
version = "0.1.0"
edition = "2021"
publish = false

[dependencies]
blake3 = "=1.8.7"
uuid = { version = "=1.29.0", features = ["v4"] }
dirs = "=5.0.1"
chrono = "=0.4.45"
serde = { version = "=1.0.229", features = ["derive"] }
serde_json = "=1.0.154"
toml = "=0.8.23"
clap = { version = "=4.6.7", features = ["derive"] }
nix = { version = "=0.29.0", features = ["signal"] }
rusqlite = { version = "0.32", features = ["bundled"] }
notify = "8"
hostname = "0.4"
signal-hook = "0.3"
