[package]
name = "pendzl"
version = "1.0.0"
edition = "2021"
publish = false

[dependencies]
ink = "5"
xxhash-rust = { version = "0.8", features = ["const_xxh32"] }
