[package]
name = "onemorebeer_ui"
version = "0.1.0"
edition = "2021"
publish = false

[dependencies]
regex = "1"
anyhow = "1"
serde = { version = "1", features = ["derive"] }
serde_json = "1"
tokio = { version = "1", features = ["full"] }
reqwest = { version = "0.12", default-features = false, features = ["json"] }
reqwest-middleware = "0.4"
http = "1"
async-trait = "0.1"
axum = "0.8"
env_logger = "0.11"
log = "0.4"
futures = "0.3"
once_cell = "1"
