[package]
name = "weather_helper"
version = "0.1.0"
edition = "2021"
publish = false

[dependencies]
urlencoding = "*"
chrono = "*"
walkdir = "*"
anyhow = "*"
serde = { version = "*", features = ["derive"] }
serde_json = "*"
tokio = { version = "*", features = ["rt", "rt-multi-thread", "macros", "time"] }
reqwest = { version = "*", default-features = false, features = ["json"] }
