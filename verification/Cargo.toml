[package]
name = "engine"
version = "0.1.0"
edition = "2021"
publish = false

[dependencies]
url = "=2.5.8"
serde = { version = "=1.0.229", features = ["derive"] }
serde_json = "=1.0.154"
indexmap = "=2.14.2"
wasm-bindgen = "=0.2.130"
base64 = "0.22"
