[package]
name = "slot_authorship"
version = "0.1.0"
edition = "2021"
publish = false

[dependencies]
futures = { version = "=0.3.34", features = ["thread-pool"] }
serde = { version = "=1.0.229", features = ["derive"] }
