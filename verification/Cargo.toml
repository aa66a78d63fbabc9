[package]
name = "session_supervisor"
version = "0.1.0"
edition = "2021"
publish = false

[dependencies]
serde_json = "=1.0.154"
regex = "=1.13.1"
serde = { version = "=1.0.229", features = ["derive"] }
tokio = { version = "=1.54.1", features = ["process", "io-util", "rt", "rt-multi-thread", "sync", "time", "macros"] }
log = "=0.4.34"
dirs = "=7.0.0"
chrono = "=0.4.45"
toml = "=1.1.8"
rusqlite = { version = "*", features = ["bundled"] }
