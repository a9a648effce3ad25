[package]
name = "feedrv3"
version = "0.1.0"
edition = "2021"
publish = false

[dependencies]
argon2 = "0.5"
async-trait = "0.1"
axum = "0.7"
chrono = "0.4"
chrono-tz = "0.10"
clap = { version = "4", features = ["derive"] }
feed-rs = "2"
hex = "0.4"
jsonschema = { version = "0.28", default-features = false }
reqwest = { version = "0.12", default-features = false, features = ["rustls-tls"] }
scraper = "0.22"
serde = { version = "1", features = ["derive"] }
serde_json = "1"
sha2 = "0.10"
sqlx = { version = "0.8", default-features = false, features = ["runtime-tokio", "sqlite", "postgres"] }
thiserror = "2"
tokio = { version = "1", features = ["full"] }
toml = "0.8"
tracing = "0.1"
tracing-subscriber = { version = "0.3", features = ["env-filter"] }
