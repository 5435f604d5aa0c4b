[package]
name = "pitch_stream"
version = "0.1.0"
edition = "2021"
publish = false

[dependencies]
circular-queue = "=0.2.7"
pitch-detection = "=0.1.0"
wasm-bindgen = "=0.2.129"
js-sys = "=0.3.106"
serde = { version = "=1.0.229", features = ["derive"] }
