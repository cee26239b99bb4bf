[package]
name = "gpu_matmul"
version = "0.1.0"
edition = "2021"
publish = false

[dependencies]
vulkano = "0.10"
vulkano-shader-derive = "0.10"
