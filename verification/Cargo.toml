[package]
name = "kvcache"
version = "0.1.0"
edition = "2021"
publish = false

[dependencies]
dashmap = "*"
tokio = { version = "*", features = ["rt-multi-thread", "net", "io-util", "time", "macros"] }
anyhow = "*"
clap = { version = "*", features = ["derive"] }
