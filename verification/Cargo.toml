[package]
name = "kanpe"
version = "0.1.0"
edition = "2021"
publish = false

[dependencies]
serde_json = "*"
serde = { version = "*", features = ["derive"] }
tokio = { version = "*", features = ["full"] }
log = "*"
chrono = "*"
dirs = "*"
uuid = { version = "*", features = ["v4"] }
dotenvy = "*"
