[package]
name = "knowcodeextra"
version = "0.1.0"
edition = "2021"
publish = false

[dependencies]
axum = "*"
chrono = { version = "*", features = ["serde"] }
config = { version = "*", default-features = false, features = ["toml"] }
dotenvy = "*"
jsonwebtoken = "*"
reqwest = { version = "*", default-features = false }
serde = { version = "*", features = ["derive"] }
serde_json = "*"
sqlx = { version = "*", default-features = false, features = ["runtime-tokio", "sqlite", "chrono", "derive"] }
tokio = { version = "*", features = ["full"] }
tower-http = { version = "*", features = ["cors", "fs", "trace"] }
tracing = "*"
tracing-subscriber = { version = "*", features = ["env-filter"] }
uuid = { version = "*", features = ["v4"] }
