[package]
name = "presence"
version = "0.1.0"
edition = "2021"
publish = false

[dependencies]
serde = "1"
serde_json = "1"
tokio = { version = "1", features = ["net", "io-util", "rt", "sync"] }
