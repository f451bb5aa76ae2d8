[package]
name = "rustywolf"
version = "0.1.0"
edition = "2021"
publish = false

[dependencies]
url = "2"
base64 = "0.22"
serde_json = "1"
anyhow = "1"
clap = { version = "4", features = ["derive"] }
dirs = "6"
ureq = "2"
image = { version = "0.25", default-features = false, features = ["ico"] }
tao = "*"
wry = "*"
