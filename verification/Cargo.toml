[package]
name = "sitemap_generator"
version = "0.1.0"
edition = "2021"

[dependencies]
flate2 = "1"
quick-xml = "0.37"
url = "2"
