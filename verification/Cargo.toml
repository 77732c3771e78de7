[package]
name = "codegen_context"
version = "0.1.0"
edition = "2021"
publish = false

[dependencies]
wasmtime-environ = "17.0.0"
