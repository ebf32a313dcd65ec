[package]
name = "http_sv"
version = "0.1.0"
edition = "2021"
publish = false

[dependencies]
chrono = { version = "0.4", default-features = false, features = ["clock", "std"] }
nom = "7"
thiserror = "2"
tracing = "0.1"
tracing-subscriber = "0.3"
