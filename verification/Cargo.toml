[package]
name = "identity_store"
version = "0.1.0"
edition = "2021"
publish = false

[dependencies]
chrono = "0.4"
diesel = { version = "1.4", features = ["sqlite", "chrono"] }
ring = "0.17"
serde_json = "1.0"
uuid = { version = "1", features = ["v4"] }
