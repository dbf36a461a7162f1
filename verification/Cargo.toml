[package]
name = "fourd"
version = "0.1.0"
edition = "2021"
publish = false

[dependencies]
ndarray = "0.16"
wasm-bindgen = { version = "0.2", features = ["serde-serialize"] }
serde = { version = "1", features = ["derive"] }
