[package]
name = "ironforge_git"
version = "0.1.0"
edition = "2021"
publish = false

[dependencies]
gix = "=0.90.0"
tokio = { version = "=1.54.1", features = ["io-util", "process", "rt", "sync", "time"] }
anyhow = "=1.0.104"
thiserror = "=2.0.21"
serde_json = "=1.0.154"
chrono = "0.4"
