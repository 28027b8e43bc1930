[package]
name = "packo"
version = "0.1.0"
edition = "2021"
publish = false

[dependencies]
base64 = "*"
chrono = "*"
serde = { version = "*", features = ["derive"] }
sevenz-rust2 = "*"
url = "*"
