[package]
name = "coraos"
version = "0.1.0"
edition = "2021"
publish = false

[dependencies]
anyhow = "1"
argon2 = "0.5"
axum = { version = "0.7", features = ["ws"] }
chrono = "0.4"
dotenvy = "0.15"
jsonwebtoken = "9"
rand = "0.8"
serde = { version = "1", features = ["derive"] }
serde_json = "1"
sqlx = { version = "0.7", default-features = false, features = ["runtime-tokio", "sqlite"] }
sysinfo = "0.30"
tokio = { version = "1", features = ["full"] }
tower-http = { version = "0.5", features = ["cors", "compression-gzip", "fs", "trace"] }
tracing = "0.1"
uuid = { version = "1", features = ["v4"] }
validator = { version = "0.18", features = ["derive"] }
