[package]
name = "file_vault"
version = "0.1.0"
edition = "2021"
publish = false

[dependencies]
sha2 = "0.10"
rand = "0.8"
uuid = { version = "1", features = ["v4"] }
chrono = "0.4"
jsonwebtoken = "9"
serde = { version = "1", features = ["derive"] }
serde_json = "1"
image = "0.24"
actix-web = "4"
actix-web-httpauth = "0.8"
dotenv = "0.15"
env_logger = "0.11"
