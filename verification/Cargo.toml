[package]
name = "fretboard"
version = "0.1.0"
edition = "2021"
publish = false

[dependencies]
staff = { version = "=0.11.0", default-features = false, features = ["fretboard", "render"] }
wasm-bindgen = "=0.2.129"
