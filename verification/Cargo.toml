[package]
name = "ipenrich"
version = "0.1.0"
edition = "2021"
publish = false

[dependencies]
ipnet = "*"
iptrie = "*"
maxminddb = { version = "*", features = ["mmap"] }
serde_json = "*"
