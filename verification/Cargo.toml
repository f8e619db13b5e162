[package]
name = "scrapping"
version = "0.1.0"
edition = "2021"
publish = false

[dependencies]
csv = "1"
scraper = "0.20"
rayon = "1"
reqwest = { version = "0.12", default-features = false, features = ["blocking", "rustls-tls"] }
spdlog-rs = "0.4"
