[package]
name = "payments"
version = "0.1.0"
edition = "2021"
publish = false

[dependencies]
anyhow = "1"
csv = "1"
fixed = { version = "1", features = ["serde", "serde-str"] }
serde = { version = "1", features = ["derive"] }
