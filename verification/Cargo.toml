[package]
name = "books_api"
version = "0.1.0"
edition = "2021"
publish = false

[dependencies]
axum = "0.6"
deadpool = "0.8"
deadpool-postgres = "0.9"
dotenv = "0.15"
serde_json = "1"
tokio = { version = "1", features = ["macros", "rt-multi-thread"] }
tokio-postgres = "0.7"

[dev-dependencies]
serde = "1"
