[package]
name = "at_gateway"
version = "0.1.0"
edition = "2021"
publish = false

[dependencies]
serde = { version = "1", features = ["derive"] }
serde_json = "1"
tokio = { version = "1", features = ["full"] }
tokio-tungstenite = "*"
tokio-serial = "5"
futures-util = "0.3"
async-trait = "0.1"
chrono = "0.4"
chrono-tz = "*"
libc = "0.2"
