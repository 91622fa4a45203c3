[package]
name = "shipcat"
version = "0.1.0"
edition = "2021"
publish = false

[dependencies]
regex = "1"
semver = "1"
uuid = { version = "1", features = ["v4"] }
serde = { version = "1", features = ["derive"] }
serde_yaml = "0.9"
serde_json = "1"
threadpool = "1"
log = "0.4"
reqwest = { version = "0.12", default-features = false, features = ["blocking"] }
