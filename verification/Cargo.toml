[package]
name = "wordlebrain"
version = "0.1.0"
edition = "2021"
publish = false

[dependencies]
rand = "0.8"
burn = { version = "0.16", default-features = false, features = ["std", "ndarray", "autodiff"] }
clap = { version = "4", features = ["derive"] }
serde = { version = "1", features = ["derive"] }
serde_json = "1"
wasm-bindgen = "0.2"
