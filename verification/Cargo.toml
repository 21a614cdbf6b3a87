[package]
name = "splot"
version = "0.1.0"
edition = "2021"
publish = false

[dependencies]
tokio = { version = "1", features = ["full"] }
axum = "0.7"
async-stream = "0.3"
log = "0.4"
