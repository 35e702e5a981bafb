[package]
name = "insights"
version = "0.1.0"
edition = "2021"
publish = false

[dependencies]
chrono = { version = "0.4", default-features = false, features = ["std", "serde"] }
regex = "1"
docopt = "1"
lazy_static = "1"
serde = { version = "1", features = ["derive"] }
serde_derive = "1"
serde_json = "1"
