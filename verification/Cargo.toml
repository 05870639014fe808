[package]
name = "rtmp_rs"
version = "0.1.0"
edition = "2021"
publish = false

[dependencies]
bytes = "*"
tokio = { version = "*", features = ["rt", "rt-multi-thread", "net", "sync", "io-util", "time", "macros"] }
