[package]
name = "bootflow"
version = "0.2.0"
edition = "2021"
publish = false

[dependencies]
uuid = { version = "1", features = ["v5"] }
chrono = "0.4"
serde = { version = "1", features = ["derive"] }
serde_json = "1"
thiserror = "1"
log = "0.4"
