[package]
name = "openfairdb"
version = "0.1.0"
edition = "2021"
publish = false

[dependencies]
chrono = "*"
fast_chemail = "*"
uuid = { version = "*", features = ["v4"] }
