[package]
name = "warp_body"
version = "0.1.0"
edition = "2021"
publish = false

[dependencies]
futures = "0.1"
hyper = { version = "0.12", default-features = false }
serde = { version = "1", features = ["derive"] }
serde_json = "1"
