[package]
name = "petsona"
version = "0.1.0"
edition = "2021"
publish = false

[dependencies]
serde = { version = "=1.0.229", features = ["derive"] }
serde_json = "=1.0.154"
uuid = { version = "=1.29.0", features = ["v4"] }
thiserror = "=2.0.21"
anyhow = "=1.0.104"
ureq = { version = "3", features = ["json"] }
