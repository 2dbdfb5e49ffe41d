[package]
name = "circle_wrap"
version = "0.1.0"
edition = "2021"
publish = false

[dependencies]
geo = "*"
itertools = "*"
serde = { version = "*", features = ["derive"] }
serde-wasm-bindgen = "*"
wasm-bindgen = "*"
