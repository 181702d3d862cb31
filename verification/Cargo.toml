[package]
name = "gemini_client"
version = "0.1.0"
edition = "2021"
publish = false

[dependencies]
futures = "*"
leaky-bucket = "*"
reqwest = { version = "*", default-features = false, features = ["json", "stream"] }
schemars = "0.8"
serde = { version = "*", features = ["derive"] }
serde_json = "*"
thiserror = "*"
typed-builder = "*"
