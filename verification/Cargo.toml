[package]
name = "rutodo"
version = "0.1.0"
edition = "2021"

[dependencies]
chrono = { version = "0.4", default-features = false, features = ["std", "clock"] }
whoami = "1"
