[package]
name = "wasm_inject"
version = "0.1.0"
edition = "2021"
publish = false

[dependencies]
walrus = "*"
clap = { version = "*", features = ["derive"] }
anyhow = "*"
