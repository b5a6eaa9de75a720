[package]
name = "carya"
version = "0.1.0"
edition = "2021"
publish = false

[dependencies]
ndarray = "*"
ocl = "*"

[dev-dependencies]
ndarray-rand = "*"
