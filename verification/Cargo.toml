[package]
name = "small_uid"
version = "0.2.0"
edition = "2021"
publish = false

[dependencies]
base64-url = "3"
rand = "0.9"
serde = { version = "1", features = ["derive"] }
talc = { version = "4", default-features = false }
wasm-bindgen = "0.2"
