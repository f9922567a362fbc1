[package]
name = "geoway"
version = "0.1.0"
edition = "2021"
publish = false

[dependencies]
jord = "*"
rstar = "*"
chrono = "*"
serde = { version = "*", features = ["derive"] }
serde_json = "*"
bincode = "1"
