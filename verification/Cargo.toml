[package]
name = "box2epub"
version = "0.1.0"
edition = "2021"
publish = false

[dependencies]
regex = "1"
scraper = "*"
epub-builder = "*"
futures = "0.3"
num_cpus = "1"
reqwest = "*"
tokio = { version = "1", features = ["full"] }
