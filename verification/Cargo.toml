[package]
name = "llgtrt"
version = "0.1.0"
edition = "2021"
publish = false

[dependencies]
axum = "0.7"
log = "0.4"
serde_json = "1"
