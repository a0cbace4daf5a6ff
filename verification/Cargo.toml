[package]
name = "debugproxy"
version = "0.1.0"
edition = "2021"
publish = false

[dependencies]
ansi-to-tui = "7"
arboard = "3"
axum = "0.7"
base64 = "0.22"
chrono = "0.4"
crossterm = "0.28"
dotenvy = "0.15"
memchr = "2"
rand = "0.8"
ratatui = "0.29"
regex = "1"
reqwest = { version = "0.12", default-features = false, features = ["json", "rustls-tls", "gzip", "brotli", "deflate"] }
serde = { version = "1", features = ["derive"] }
serde_json = "1"
tokio = { version = "1", features = ["full"] }
unicode-width = "0.2"
