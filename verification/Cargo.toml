[package]
name = "local-remote-share"
version = "0.1.0"
edition = "2021"
publish = false

[dependencies]
rand = "0.8"
hex = "0.4"
argon2 = { version = "0.5", features = ["std"] }
axum = "0.7"
tokio = { version = "1", features = ["full"] }
tokio-util = { version = "0.7", features = ["io"] }
serde = { version = "1", features = ["derive"] }
anyhow = "1"
libc = "0.2"

[dev-dependencies]
tempfile = "3"
