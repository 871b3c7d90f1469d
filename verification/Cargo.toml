[package]
name = "word_trainer"
version = "0.1.0"
edition = "2021"
publish = false

[dependencies]
chrono = "0.4"
uuid = { version = "1", features = ["v4"] }
md5 = "0.7"
serde = { version = "1", features = ["derive"] }
rusqlite = { version = "*", features = ["bundled"] }
reqwest = { version = "0.12", default-features = false, features = ["blocking", "json", "rustls-tls"] }
log = "0.4"
env_logger = "0.11"
