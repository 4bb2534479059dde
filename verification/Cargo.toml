[package]
name = "vss"
version = "0.1.0"
edition = "2021"
publish = false

[dependencies]
anyhow = "1"
axum = { version = "0.6", features = ["headers"] }
base64 = "=0.13.1"
chrono = "=0.4.45"
clap = { version = "4", features = ["derive"] }
dotenv = "0.15"
hex = "=0.4.3"
jwt-compact = { version = "=0.8.0", features = ["es256k"] }
log = "0.4"
pretty_env_logger = "0.5"
secp256k1 = "=0.28.2"
serde = { version = "1", features = ["derive"] }
serde_json = "=1.0.151"
sha2 = "=0.10.9"
tokio = { version = "1", features = ["full"] }
tower-http = { version = "0.4", features = ["cors"] }
ureq = { version = "2", features = ["json"] }
