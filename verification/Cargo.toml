[package]
name = "audiod"
version = "0.1.0"
edition = "2021"
publish = false

[dependencies]
axum = "=0.8.9"
dirs = "=6.0.0"
env_logger = "=0.11.11"
librespot = { version = "=0.8.0", default-features = false, features = ["rustls-tls-webpki-roots"] }
oauth2 = { version = "=5.0.0", features = ["reqwest"] }
reqwest = { version = "=0.12.28", default-features = false, features = ["json"] }
serde = { version = "=1.0.229", features = ["derive"] }
serde_json = "=1.0.154"
tokio = { version = "=1.54.1", features = ["full"] }
