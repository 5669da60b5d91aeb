[package]
name = "rusty_lib"
version = "0.1.0"
edition = "2021"
publish = false

[dependencies]
flate2 = "1"
base64 = "0.22"
chrono = "0.4"
serde = { version = "1", features = ["derive"] }
serde_json = "1"
mongodb = "2"
tokio = { version = "1", features = ["macros", "rt-multi-thread"] }
futures = "0.3"
