[package]
name = "qr_symbol"
version = "0.1.0"
edition = "2021"
publish = false

[dependencies]
wasm-bindgen = "=0.2.129"
console_error_panic_hook = "=0.1.7"

[dev-dependencies]
qr_code = { version = "=2.0.0", features = ["bmp", "decode"] }
