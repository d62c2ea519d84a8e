[package]
name = "image_tags"
version = "0.1.0"
edition = "2021"
publish = false

[dependencies]
log = "0.4"
reqwest = { version = "=0.12.28", default-features = false, features = ["charset", "json", "multipart"] }
rust-i18n = "=3.1.5"
serde = { version = "1", features = ["derive"] }
serde_json = "=1.0.154"
tokio = { version = "1", features = ["time"] }
tokio-postgres = "=0.7.18"
uuid = { version = "=1.29.0", features = ["serde"] }
