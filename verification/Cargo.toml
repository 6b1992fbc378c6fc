[package]
name = "ifunny_scraper"
version = "0.1.0"
edition = "2021"
publish = false

[dependencies]
argh = "0.1"
async-std = "1"
futures = "0.3"
image = "0.24"
reqwest = { version = "0.12", default-features = false }
scraper = "0.23"
tokio = { version = "1", features = ["macros", "rt-multi-thread"] }
