[package]
name = "slimebot"
version = "0.1.0"
edition = "2021"
publish = false

[dependencies]
rand = "0.8"
chrono = { version = "0.4", default-features = false, features = ["clock", "std"] }
tinyvec = { version = "1", features = ["alloc"] }
url = "2"
serde = { version = "1", features = ["derive"] }
serde_json = "1"
