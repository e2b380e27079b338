[package]
name = "struct_perf"
version = "0.1.0"
edition = "2021"
publish = false

[dependencies]
lazy_mut = "=0.1.0"
pyo3 = { version = "=0.20.3", features = ["extension-module"] }
rand = "=0.8.8"
rand_xoshiro = "=0.6.0"
