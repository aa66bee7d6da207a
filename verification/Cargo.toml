[package]
name = "kodik_parser"
version = "0.1.0"
edition = "2021"
publish = false

[dependencies]
anyhow = "=1.0.104"
base64 = "=0.22.1"
dotenvy = "=0.15.7"
kodik-api = "=0.5.0"
regex = "=1.13.1"
reqwest = { version = "=0.13.5", features = ["form"] }
scraper = "=0.29.0"
serde = { version = "=1.0.229", features = ["derive"] }
serde_json = "=1.0.154"
tokio = { version = "=1.54.1", features = ["macros", "rt-multi-thread"] }
url = "=2.5.8"
