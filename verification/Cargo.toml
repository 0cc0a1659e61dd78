[package]
name = "marqueet"
version = "0.1.0"
edition = "2021"
publish = false

[dependencies]
chrono = "0.4"
form_urlencoded = "1"
ring = "0.17"
serde = { version = "1", features = ["derive"] }

[dev-dependencies]
serde_json = "1"
