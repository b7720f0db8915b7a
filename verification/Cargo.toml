[package]
name = "aftermarket_hunter"
version = "0.1.0"
edition = "2021"
publish = false

[dependencies]
regex = "1"
scraper = "*"
chrono = { version = "0.4", features = ["serde"] }
strsim = "0.11"
serde = { version = "1", features = ["derive"] }
serde_json = "1"
reqwest = { version = "0.12", default-features = false, features = ["json", "gzip", "brotli", "rustls-tls"] }
tokio = { version = "1", features = ["full"] }
rusqlite = { version = "*", features = ["bundled"] }
governor = "*"
futures = "0.3"
anyhow = "1"
async-trait = "0.1"
once_cell = "1"
tracing = "0.1"
tracing-subscriber = { version = "0.3", features = ["env-filter"] }
