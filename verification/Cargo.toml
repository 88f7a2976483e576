[package]
name = "cinema_scrape"
version = "0.1.0"
edition = "2021"
publish = false

[dependencies]
async-trait = "0.1"
chrono = "0.4"
clap = { version = "4", features = ["derive"] }
reqwest = { version = "0.12", default-features = false, features = ["cookies", "rustls-tls"] }
rss = "2"
scraper = "*"
serde_json = "1"
tokio = { version = "1", features = ["macros", "rt-multi-thread"] }
