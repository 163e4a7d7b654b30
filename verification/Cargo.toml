[package]
name = "shoulders"
version = "0.1.0"
edition = "2021"
publish = false

[dependencies]
hmac = "0.12"
sha2 = "0.10"
hex = "0.4"
serde_json = "1"
uuid = { version = "1", features = ["v4"] }
chrono = "0.4"
zeromq = "0.4"
tokio = { version = "1", features = ["rt-multi-thread", "macros", "time", "sync"] }
pulldown-cmark = "*"
regex-lite = "*"
url = "2"
