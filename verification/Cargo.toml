[package]
name = "sanji_engine"
version = "0.1.0"
edition = "2021"
publish = false

[dependencies]
glam = { version = "0.29", features = ["serde"] }
serde = { version = "1", features = ["derive"] }
serde_json = "1"
thiserror = "1"
anyhow = "1"
log = "0.4"
env_logger = "0.11"
chrono = "0.4"
rand = "0.8"
specs = { version = "0.20", default-features = false }
winit = { version = "0.30", default-features = false, features = ["x11", "rwh_06"] }
