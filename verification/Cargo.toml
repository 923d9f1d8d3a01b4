[package]
name = "optifine_scraper"
version = "1.0.0"
edition = "2021"
publish = false

[dependencies]
colored = "2"
futures-util = "0.3"
indicatif = "0.17"
reqwest = { version = "0.12", default-features = false, features = ["stream", "rustls-tls"] }
scraper = "*"
tokio = { version = "1", features = ["fs", "io-util", "process", "macros", "rt-multi-thread"] }
