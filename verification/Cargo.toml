[package]
name = "stock_clerk"
version = "0.1.0"
edition = "2021"
publish = false

[dependencies]
chrono = { version = "0.4", features = ["serde"] }
docopt = "1"
enum-map = { version = "2", features = ["serde"] }
failure = "0.1"
prettytable-rs = "0.10"
reqwest = { version = "0.12", features = ["blocking"] }
serde = { version = "1", features = ["derive"] }
serde_json = "1"
