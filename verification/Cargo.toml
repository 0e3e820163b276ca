[package]
name = "tradebot"
version = "0.1.0"
edition = "2021"
publish = false

[dependencies]
env_logger = "*"
futures = "*"
hex = "*"
hmac = "*"
reqwest = { version = "*", default-features = false, features = ["json"] }
serde = { version = "*", features = ["derive"] }
sha2 = "*"
tokio = { version = "*", features = ["full"] }
uuid = { version = "*", features = ["v4"] }
