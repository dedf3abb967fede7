[package]
name = "opencat"
version = "0.1.0"
edition = "2021"
publish = false

[dependencies]
ahash = { version = "=0.8.12", default-features = false, features = ["std"] }
unicode-segmentation = "1"
imagesize = "*"
serde = { version = "1", features = ["derive"] }
serde_json = "1"
anyhow = "1"
