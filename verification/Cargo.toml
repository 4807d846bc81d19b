[package]
name = "pathtracer"
version = "0.1.0"
edition = "2021"
publish = false

[dependencies]
lazy_static = "1"
packed_simd = "*"
rand = "0.8"
rayon = "1"
