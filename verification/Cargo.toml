[package]
name = "crawlina"
version = "0.1.0"
edition = "2021"
publish = false

[dependencies]
axum = "0.6"
chrono = "0.4"
dotenv = "0.15"
feed-rs = "1"
reqwest = { version = "0.11", default-features = false, features = ["rustls-tls"] }
serde = { version = "1", features = ["derive"] }
serde_json = "1"
sqlx = { version = "0.7", default-features = false, features = ["runtime-tokio", "postgres", "chrono"] }
tokio = { version = "1", features = ["full"] }
