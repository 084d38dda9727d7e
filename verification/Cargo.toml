[package]
name = "authcore"
version = "0.1.0"
edition = "2021"
publish = false

[dependencies]
argon2 = "0.5"
jsonwebtoken = "9"
rand = "0.8"

[dev-dependencies]
serde_json = "1"
