[package]
name = "rss"
version = "0.1.0"
edition = "2021"
publish = false

[dependencies]
quick-xml = "*"
serde_json = "1"
