[package]
name = "wastebin_config"
version = "0.1.0"
edition = "2021"
publish = false

[dependencies]
axum-extra = { version = "*", features = ["cookie", "cookie-signed"] }
hostname = "*"
thiserror = "*"
url = "*"
