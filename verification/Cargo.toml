[package]
name = "menu_scraper"
version = "1.0.0"
edition = "2021"
publish = false

[dependencies]
clap = "2"
serde_json = "1"
tokio = { version = "1", features = ["rt", "macros", "net", "io-util"] }
