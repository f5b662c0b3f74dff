[package]
name = "ipc_bridge"
version = "0.1.0"
edition = "2021"
publish = false

[dependencies]
anyhow = "1"
reqwest = { version = "*", default-features = false }
scraper = "*"
tao = "*"
tokio = { version = "1", features = ["rt-multi-thread"] }
url = "*"
wry = "*"
