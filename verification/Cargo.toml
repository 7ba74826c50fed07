[package]
name = "chat_relay"
version = "0.1.0"
edition = "2021"
publish = false

[dependencies]
uuid = { version = "1", features = ["v4"] }
redis = { version = "0.23", features = ["r2d2"] }
r2d2 = "0.8"
tokio = { version = "1", features = ["full"] }
axum = { version = "0.6", features = ["ws"] }
futures = "0.3"
