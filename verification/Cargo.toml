[package]
name = "unstorage"
version = "0.1.0"
edition = "2021"
publish = false

[dependencies]
anyhow = "1"
chrono = "0.4"
http = "0.2"
isahc = "1"
serde = { version = "1", features = ["derive"] }
serde_json = "1"
