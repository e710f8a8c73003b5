[package]
name = "fatrs"
version = "0.1.0"
edition = "2021"
publish = false

[dependencies]
chrono = "*"
serde = { version = "*", features = ["derive"] }
postcard = { version = "*", features = ["alloc"] }
clap = { version = "*", features = ["derive"] }
