[package]
name = "microservice_cache"
version = "0.1.0"
edition = "2021"
publish = false

[dependencies]
dashmap = "6"
sha2 = "0.10"
serde = { version = "1", features = ["derive"] }
serde_json = "1"
napi = "2"
napi-derive = "2"
