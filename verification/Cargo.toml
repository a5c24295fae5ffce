[package]
name = "rust_fractal"
version = "0.1.0"
edition = "2021"
publish = false

[dependencies]
atomic-counter = "1"
num-complex = "0.4"
rayon = "1"
rug = "1"
