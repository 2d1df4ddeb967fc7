[package]
name = "css_lens"
version = "0.1.0"
edition = "2021"
publish = false

[dependencies]
serde = { version = "1", features = ["derive"] }
tsify = "0.4"
wasm-bindgen = "0.2"

[dev-dependencies]
regex = "1"
