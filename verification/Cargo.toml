[package]
name = "http_engine"
version = "0.1.0"
edition = "2021"
publish = false

[dependencies]
napi = { version = "2", default-features = false, features = ["napi4"] }
napi-derive = { version = "2", default-features = false }

[dev-dependencies]
nom = "7"
