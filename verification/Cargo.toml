[package]
name = "artifact_resolver"
version = "0.1.0"
edition = "2021"
publish = false

[dependencies]
octocrab = "=0.47.1"
reqwest = { version = "=0.12.28", default-features = false, features = ["rustls-tls"] }
serde = { version = "=1.0.229", features = ["derive"] }
chrono = { version = "=0.4.45", features = ["serde"] }
http-body-util = "*"
