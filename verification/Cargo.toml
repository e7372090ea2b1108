[package]
name = "relay_quorum"
version = "0.1.0"
edition = "2021"
publish = false

[dependencies]
anyhow = "=1.0.104"
bytes = "=1.12.1"
futures-buffered = "=0.2.13"
futures-lite = "=2.6.1"
pubky-timestamp = { version = "=0.4.1", features = ["httpdate"] }
reqwest = { version = "=0.12.28", default-features = false }
serde = { version = "=1.0.229", features = ["derive"] }
tokio = { version = "=1.54.1", features = ["fs"] }
toml = "=0.8.23"
url = "=2.5.8"
