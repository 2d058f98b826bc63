[package]
name = "nextcloud_analytics_rs"
version = "0.1.0"
edition = "2021"
publish = false

[dependencies]
chrono = "0.4"
json = "0.12"
reqwest = { version = "0.12", features = ["blocking"] }
