[package]
name = "unicom"
version = "1.0.0"
edition = "2021"
publish = false

[dependencies]
chrono = "0.4"
bcrypt = "0.15"
serde = { version = "1", features = ["derive"] }
serde_json = "1"
anyhow = "1"
tracing = "0.1"
tracing-subscriber = { version = "0.3", features = ["env-filter"] }
actix-web = "4"
actix-cors = "0.7"
tokio = { version = "1", features = ["full"] }
tokio-cron-scheduler = "0.13"
reqwest = { version = "0.12", default-features = false, features = ["json", "rustls-tls"] }
rusqlite = { version = "0.31", features = ["bundled", "chrono"] }
r2d2 = "0.8"
r2d2_sqlite = "0.24"
rand = "0.8"
uuid = { version = "1", features = ["v4"] }
config = { version = "0.14", default-features = false, features = ["toml"] }
