[package]
name = "wasm-component-middleware"
version = "0.1.0"
edition = "2021"
publish = false

[dependencies]
wasmtime = "=48.0.8"
wasmtime-wasi = { version = "=48.0.8", features = ["p3"] }
wasmtime-wasi-http = { version = "=48.0.8", features = ["p3"] }
http = "=1.5.0"
hyper = "=1.12.0"
rustls = { version = "=0.23.46", default-features = false }
