[package]
name = "rginx_control"
version = "0.1.3"
edition = "2021"
publish = false

[dependencies]
base64 = "0.22"
ipnet = "2"
ring = "0.17"
serde = { version = "1", features = ["derive"] }
serde_json = "1"
sha2 = "0.10"
