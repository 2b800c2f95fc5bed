[package]
name = "sieve_kit"
version = "0.2.0"
edition = "2021"
publish = false

[dependencies]
regex = "1"
serde = { version = "1", features = ["derive"] }
thiserror = "2"
