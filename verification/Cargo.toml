[package]
name = "equation-exporter"
version = "0.1.0"
edition = "2021"
publish = false

[dependencies]
quick-xml = "=0.41.0"
zip = { version = "=9.2.2", default-features = false, features = ["deflate"] }
url = "=2.5.8"
tempfile = "=3.27.0"
serde = { version = "=1.0.229", features = ["derive"] }
clipboard-rs = "=0.3.5"
gtk = "=0.18.2"
