[package]
name = "buttercup"
version = "0.1.0"
edition = "2021"
publish = false

[dependencies]
actix-rt = "*"
actix-web = "*"
dashmap = "*"
futures = "*"
lazy_static = "*"
regex = "*"
serde = { version = "*", features = ["derive"] }
serde_json = "*"
