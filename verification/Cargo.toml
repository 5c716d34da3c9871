[package]
name = "rolling_search"
version = "0.1.0"
edition = "2021"
publish = false

[dependencies]
bare_metal_modulo = "=1.2.6"
num = "=0.4.3"
rayon = "=1.12.0"
lipsum = "=0.8.2"
