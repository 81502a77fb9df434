[package]
name = "bocchi"
version = "0.1.0"
edition = "2021"
publish = false

[dependencies]
rand = "0.8"
pulldown-cmark = { version = "=0.13.4", default-features = false, features = ["html"] }
tokio = { version = "1", features = ["rt-multi-thread", "macros", "sync", "time", "net"] }
tokio-tungstenite = "*"
futures-util = "*"
http = "*"
anyhow = "*"
