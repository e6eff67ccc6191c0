[package]
name = "wasm_bench"
version = "0.1.0"
edition = "2021"
publish = false

[dependencies]
regex = "=1.13.1"
wasmi = "=2.0.0"
wasmtime = { version = "=46.0.3", default-features = false, features = ["cranelift", "runtime", "std"] }
