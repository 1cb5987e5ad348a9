[package]
name = "zstd_streaming_reader"
version = "0.1.0"
edition = "2021"
publish = false

[dependencies]
zstd = "=0.13.3"
serde = { version = "=1.0.229", features = ["derive"] }
serde_json = { version = "=1.0.154", features = ["raw_value"] }
wasm-bindgen = "=0.2.129"
js-sys = "=0.3.106"
web-sys = { version = "=0.3.106", features = ["console"] }
serde-wasm-bindgen = "=0.6.5"
