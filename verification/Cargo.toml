[package]
name = "static_server"
version = "0.1.0"
edition = "2021"
publish = false

[dependencies]
chrono = { version = "0.4", default-features = false, features = ["clock", "std"] }
flate2 = "1"
httparse = "1"
httpdate = "1"
