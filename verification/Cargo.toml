[package]
name = "feed_reader"
version = "0.1.0"
edition = "2021"
publish = false

[dependencies]
chrono = "=0.4.45"
quick-xml = "=0.38.4"
reqwest = { version = "=0.13.5", features = ["blocking"] }
sqlite = "=0.37.4"
url = "=2.5.8"
