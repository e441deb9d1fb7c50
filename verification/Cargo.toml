[package]
name = "finchers-tungstenite"
version = "0.1.0"
edition = "2021"
publish = false

[dependencies]
base64 = "=0.10.1"
sha1 = "=0.6.1"
tungstenite = { version = "=0.6.1", default-features = false }
tokio-executor = "=0.1.10"
tokio-tungstenite = { version = "=0.6.0", default-features = false }
finchers = { version = "=0.13.0", default-features = false }
futures = "=0.1.31"
http = "=0.1.21"
hyper = "=0.12.36"
failure = "=0.1.8"
