[package]
name = "stargram"
version = "0.1.0"
edition = "2021"
publish = false

[dependencies]
image = "=0.25.10"
uuid = { version = "=1.27.0", features = ["v4"] }
axum = { version = "=0.6.20", features = ["multipart"] }
async-trait = "=0.1.92"
serde = { version = "=1.0.229", features = ["derive"] }
tokio = { version = "=1.53.2", features = ["macros", "rt-multi-thread"] }
