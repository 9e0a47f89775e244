[package]
name = "brand_catalog"
version = "0.1.0"
edition = "2021"
publish = false

[dependencies]
uuid = { version = "=1.27.0", features = ["v4", "serde"] }
serde = { version = "=1.0.229", features = ["derive"] }
actix-web = "=4.15.0"
dotenv = "=0.15.0"
env_logger = "=0.11.11"
listenfd = "=1.0.2"
