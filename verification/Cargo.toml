[package]
name = "ethereum_forum"
version = "0.1.0"
edition = "2021"
publish = false

[dependencies]
strip-tags = "=0.1.0"
regex = "=1.13.1"
html2md = "=0.2.17"
scraper = "=0.27.0"
async-std = { version = "*", features = ["attributes"] }
reqwest = { version = "*", default-features = false }
serde = { version = "*", features = ["derive"] }
serde_json = "*"
chrono = "*"
rss = "*"
