[package]
name = "wasm_sections"
version = "0.1.0"
edition = "2021"
publish = false

[dependencies]
walrus = "*"
libflate = "*"
candid_parser = "*"
serde = { version = "*", features = ["derive"] }
serde-wasm-bindgen = "*"
wasm-bindgen = "*"
