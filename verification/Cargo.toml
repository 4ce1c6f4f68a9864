[package]
name = "web_link"
version = "0.1.0"
edition = "2021"
publish = false

[dependencies]
libnspire = "*"
rusb = "*"
serde = { version = "1", features = ["derive"] }
wasm-bindgen = "*"
js-sys = "*"
web-sys = { version = "*", features = ["DedicatedWorkerGlobalScope"] }
serde-wasm-bindgen = "*"
console_error_panic_hook = "*"
