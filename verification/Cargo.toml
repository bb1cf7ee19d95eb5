[package]
name = "wasmhost"
version = "0.1.0"
edition = "2021"
publish = false

[dependencies]
wasmi = "=0.51.5"
serde_json = "=1.0.151"
web-time = "=1.1.0"

[dev-dependencies]
wat = "=1.261.0"
