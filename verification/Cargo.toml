[package]
name = "tf2monitor"
version = "0.1.0"
edition = "2021"
publish = false

[dependencies]
scraper = "*"
serde = { version = "1", features = ["derive"] }
serde_json = "1"
reqwest = { version = "0.12", default-features = false, features = ["blocking", "rustls-tls"] }
chrono = "0.4"
log = "0.4"
simple_logger = "*"
fs-err = "*"
diesel = { version = "2", features = ["sqlite", "r2d2"] }
