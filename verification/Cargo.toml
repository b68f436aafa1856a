[package]
name = "websearch_tui"
version = "0.1.0"
edition = "2021"
publish = false

[dependencies]
anyhow = "*"
crossterm = "*"
dotenvy = "*"
futures = "*"
html-to-markdown-rs = "*"
rand = "*"
ratatui = "*"
readability-js = "*"
reqwest = { version = "*", default-features = false, features = ["rustls-tls", "json", "gzip", "brotli", "http2"] }
scraper = "*"
serde = { version = "*", features = ["derive"] }
serde_json = "*"
tokio = { version = "*", features = ["rt-multi-thread", "macros", "sync", "time", "fs"] }
url = "*"
urlencoding = "*"
