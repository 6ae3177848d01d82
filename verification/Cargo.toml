[package]
name = "smart_home"
version = "0.1.0"
edition = "2021"
publish = false

[dependencies]
axum = "=0.8.9"
libloading = "0.8"
serde = { version = "=1.0.229", features = ["derive"] }
tokio = { version = "=1.54.1", features = ["macros", "rt-multi-thread", "net"] }
tower-http = { version = "=0.6.11", features = ["cors"] }
