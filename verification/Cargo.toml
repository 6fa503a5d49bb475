[package]
name = "blockflow"
version = "0.1.0"
edition = "2021"
publish = false

[dependencies]
futures = "0.3"
slab = "0.4"
wasm-rs-async-executor = "*"
