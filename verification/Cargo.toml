[package]
name = "veridion"
version = "0.1.0"
edition = "2021"
publish = false

[dependencies]
actix-cors = "*"
actix-web = "*"
aes-gcm = "*"
chrono = "*"
dotenv = "*"
env_logger = "*"
jsonwebtoken = "*"
log = "*"
rand = "*"
serde = { version = "*", features = ["derive"] }
serde_json = "*"
sha2 = "*"
uuid = { version = "*", features = ["v4"] }
