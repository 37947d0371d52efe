[package]
name = "semerak"
version = "0.1.0"
edition = "2021"
publish = false

[dependencies]
jsonwebtoken = "9"
serde_json = "1"
percent-encoding = "2"
markdown = "*"
axum = { version = "*", features = ["multipart"] }
tokio = { version = "1", features = ["full"] }
async-io = "*"
anyhow = "1"
serde = { version = "1", features = ["derive"] }
chrono = "0.4"
dotenv = "0.15"
tempfile = "3"
