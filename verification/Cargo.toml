[package]
name = "slack_client"
version = "0.1.0"
edition = "2021"
publish = false

[dependencies]
hyper = { version = "0.14", features = ["client", "http1", "tcp"] }
serde = "1"
serde_json = "1"
url = "2"
bytes = "1"
