[package]
name = "includedir"
version = "0.1.0"
edition = "2021"
publish = false

[dependencies]
flate2 = "1"
phf = "0.11"
phf_codegen = "0.11"
walkdir = "2"

[dev-dependencies]
phf_generator = "0.11"
