[package]
name = "sensor_bridge"
version = "0.1.0"
edition = "2021"
publish = false

[dependencies]
axum = "0.7"
serde = { version = "1", features = ["derive"] }
tokio = { version = "1", features = ["full"] }
tokio-serial = { version = "5.4", default-features = false }
