[package]
name = "era_connect"
version = "0.0.1"
edition = "2021"
publish = false

[dependencies]
anyhow = "1"
async-semaphore = "1"
futures = "0.3"
hex = "0.4"
os-version = "0.2"
reqwest = { version = "0.11", default-features = false, features = ["json", "rustls-tls"] }
serde = { version = "1", features = ["derive"] }
serde_json = "1"
sha1 = "0.10"
tokio = { version = "1", features = ["full"] }
