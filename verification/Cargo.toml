[package]
name = "riskly"
version = "0.1.0"
edition = "2021"
publish = false

[dependencies]
tokio = { version = "1", default-features = false, features = ["sync", "rt"] }
serde = { version = "1", features = ["derive"] }
serde_json = "1"
