[package]
name = "gsn2x_lib"
version = "0.1.0"
edition = "2021"
publish = false

[dependencies]
anyhow = "1"
clap = "4"
console_error_panic_hook = "0.1"
serde = { version = "1", features = ["derive"] }
serde_yaml_ng = "0.10"
wasm-bindgen = "0.2"
