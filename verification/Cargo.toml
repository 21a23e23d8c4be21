[package]
name = "replay_scraper"
version = "0.1.0"
edition = "2021"
publish = false

[dependencies]
kuchiki = "0.8"
serde_json = "1"
hyper = "0.11"
futures = "0.1"
futures-cpupool = "0.1"
tokio-core = "0.1"
