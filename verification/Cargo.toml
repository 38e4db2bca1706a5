[package]
name = "steamgiftsbot"
version = "0.1.0"
edition = "2021"
publish = false

[dependencies]
scraper = "*"
humantime = "*"
serde_json = "*"
serde = { version = "*", features = ["derive"] }
surf = "*"
tide = "*"
async-std = { version = "*", features = ["attributes"] }
log = "*"
simplelog = "*"
console = "*"
anyhow = "*"
