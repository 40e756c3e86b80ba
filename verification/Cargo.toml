[package]
name = "calamine_styles"
version = "0.1.0"
edition = "2021"
publish = false

[dependencies]
quick-xml = "0.38"
atoi_simd = "0.16"
