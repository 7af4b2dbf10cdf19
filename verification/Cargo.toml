[package]
name = "wasm_preparse"
version = "0.1.0"
edition = "2021"
publish = false

[dependencies]
anyhow = "*"
heapless = "*"
spin = "*"
wasmi = "*"
