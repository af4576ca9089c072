[package]
name = "glicol_wasm"
version = "0.1.0"
edition = "2021"
publish = false

[dependencies]
dasp_graph = "*"
lazy_static = "*"
