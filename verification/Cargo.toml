[package]
name = "invidious"
version = "0.1.0"
edition = "2021"
publish = false

[dependencies]
anyhow = "1"
regex = "1"
reqwest = { version = "0.12", default-features = false, features = ["blocking", "charset", "json", "rustls-tls"] }
serde_json = "1"
tokio = { version = "1", features = ["rt"] }
