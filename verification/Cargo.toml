[package]
name = "bitfinex_scraper"
version = "0.1.0"
edition = "2021"
publish = false

[dependencies]
serde_json = "1"
ws = "0.9"
clap = "2"
ctrlc = "3"
log = "0.4"
simplelog = "*"
