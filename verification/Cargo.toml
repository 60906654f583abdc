[package]
name = "candidature"
version = "0.1.0"
edition = "2021"
publish = false

[dependencies]
serde = { version = "1", features = ["derive"] }
serde_json = "1"
url = "2"
sha2 = "0.10"
base64 = "0.22"
scraper = "*"
encoding_rs = "0.8"
chrono = "0.4"
uuid = { version = "1", features = ["v4"] }
