[package]
name = "crypto_crawler"
version = "0.1.0"
edition = "2021"
publish = false

[dependencies]
crypto-market-type = "=1.1.6"
crypto-markets = "=1.3.11"
log = "=0.4.34"
serde_json = "=1.0.154"
