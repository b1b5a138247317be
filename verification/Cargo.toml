[package]
name = "guest_book"
version = "0.1.0"
edition = "2021"
publish = false

[dependencies]
near-sdk = { version = "5.1.0", features = ["legacy", "unit-testing"] }
