[package]
name = "quiz_core"
version = "0.1.0"
edition = "2021"
publish = false

[dependencies]
argon2 = { version = "0.5", features = ["std"] }
chrono = { version = "0.4", default-features = false, features = ["clock"] }
jsonwebtoken = "9"
serde_json = "1"
uuid = { version = "1", features = ["v4"] }
