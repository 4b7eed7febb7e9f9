[package]
name = "zeroclaw"
version = "0.1.0"
edition = "2021"
publish = false

[dependencies]
anyhow = "1"
opener = "*"
regex = "1"
serde = { version = "1", features = ["derive"] }
serde_json = "1"
tokio = { version = "1", features = ["io-util", "macros", "net", "rt", "sync", "time"] }
tracing = "0.1"
urlencoding = "2"
