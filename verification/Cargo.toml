[package]
name = "android_commander"
version = "0.1.0"
edition = "2021"
publish = false

[dependencies]
tokio = { version = "1", features = ["rt-multi-thread", "macros", "sync", "process", "io-util", "fs", "time"] }
tempfile = "3"
serde = { version = "1", features = ["derive"] }
toml = "*"
