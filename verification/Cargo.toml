[package]
name = "piano_analytics"
version = "0.1.0"
edition = "2021"
publish = false

[dependencies]
chrono = "*"
chrono-tz = "*"
serde_json = "*"
serde_qs = "*"

[dev-dependencies]
uuid = { version = "*", features = ["v4"] }
