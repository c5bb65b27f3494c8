[package]
name = "modulargrid"
version = "0.1.0"
edition = "2021"
publish = false

[dependencies]
anyhow = "=1.0.104"
futures = "=0.3.34"
scraper = "*"
tokio = { version = "=1.54.1", features = ["macros", "rt-multi-thread"] }
voyager = "=0.2.1"
