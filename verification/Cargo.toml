[package]
name = "cqrs_rust_lib"
version = "0.1.0"
edition = "2021"
publish = false

[dependencies]
uuid = "=1.27.0"
rand = "=0.8.8"
chrono = "=0.4.45"
serde = { version = "1", features = ["derive"] }
serde_json = "1"
