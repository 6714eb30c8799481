[package]
name = "inventory_scanner"
version = "0.1.0"
edition = "2021"
publish = false

[dependencies]
regex = "1"
serde = { version = "1", features = ["derive"] }
serde_json = "1"
chrono = "0.4"
yansi = "0.5"
askama = "0.12"
