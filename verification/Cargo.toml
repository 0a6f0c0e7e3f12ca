[package]
name = "lsx"
version = "0.1.0"
edition = "2021"
publish = false

[dependencies]
chrono = "0.4"
colored = "*"
serde = { version = "1", features = ["derive"] }
serde_json = "1"
tabled = "*"
users = "0.11"
