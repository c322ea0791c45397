[package]
name = "matter"
version = "0.1.0"
edition = "2021"
publish = false

[dependencies]
serde = { version = "1", features = ["derive"] }
serde_yaml = "0.8"
wasm-bindgen = { version = "0.2", features = ["serde-serialize"] }
