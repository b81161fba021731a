[package]
name = "picam"
version = "0.1.0"
edition = "2021"
publish = false

[dependencies]
sha3 = "*"
tokio = { version = "*", features = ["rt", "rt-multi-thread", "macros", "sync", "fs", "io-util", "time", "net", "process"] }
serde = { version = "*", features = ["derive"] }
serde_json = "*"
chrono = "*"
fs2 = "*"
