[package]
name = "wnacg_downloader"
version = "0.1.0"
edition = "2021"
publish = false

[dependencies]
anyhow = "=1.0.104"
scraper = "=0.29.0"
image = { version = "=0.25.10", default-features = false, features = ["jpeg", "png", "webp", "gif"] }
urlencoding = "=2.1.3"
serde = { version = "=1.0.229", features = ["derive"] }
serde_json = "=1.0.154"
tokio = { version = "=1.54.1", features = ["full"] }
reqwest = { version = "=0.12.28", default-features = false, features = ["rustls-tls", "json"] }
reqwest-middleware = "=0.4.2"
reqwest-retry = "=0.7.0"
bytes = "=1.12.1"
clap = { version = "=4.6.7", features = ["derive"] }
zip = { version = "=9.2.2", default-features = false }
rayon = "=1.12.0"
axum = "=0.8.9"
tower-http = { version = "=0.7.1", features = ["cors", "fs"] }
rusqlite = { version = "=0.41.1", features = ["bundled"] }
uuid = { version = "=1.29.0", features = ["v4"] }
