[package]
name = "bookbinder"
version = "0.1.0"
edition = "2021"
publish = false

[dependencies]
anyhow = "*"
reqwest = { version = "*", default-features = false }
soup = "*"
tokio = { version = "*", features = ["full"] }
