[package]
name = "hltv_api"
version = "0.1.0"
edition = "2021"
publish = false

[dependencies]
scraper = "*"
attohttpc = { version = "*", default-features = false }
