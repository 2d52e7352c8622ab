[package]
name = "iceberg_snapshot"
version = "0.1.0"
edition = "2021"
publish = false

[dependencies]
chrono = "0.4"
itertools = "*"
serde = { version = "1", features = ["derive"] }
typed-builder = "*"

[dev-dependencies]
serde_json = "1"
