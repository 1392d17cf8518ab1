[package]
name = "rfile"
version = "0.1.0"
edition = "2021"
publish = false

[dependencies]
blake3 = { version = "*", features = ["rayon"] }
rocket = "0.5"
notify = "4"
memmap2 = "*"
log = "*"
lazy_static = "*"
