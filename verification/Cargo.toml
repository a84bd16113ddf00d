[package]
name = "mew_agent"
version = "0.1.0"
edition = "2021"
publish = false

[dependencies]
rand = "0.8"
serde_json = "1"
url = "2"
anyhow = "1"
serde = { version = "1", features = ["derive"] }
serde_yaml = "0.9"
tokio = { version = "1", features = ["sync", "time", "rt", "macros"] }
tracing = "0.1"
reqwest = { version = "0.12", default-features = false, features = ["json"] }
