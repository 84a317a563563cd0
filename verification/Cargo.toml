[package]
name = "chess_events"
version = "0.1.0"
edition = "2021"
publish = false

[dependencies]
chrono = { version = "0.4", features = ["serde"] }
mysql = "*"
regex = "1"
reqwest = { version = "*", features = ["blocking"] }
scraper = "*"
serde = { version = "1", features = ["derive"] }
serde_yaml = "0.9"
unicode-normalization = "0.1"
