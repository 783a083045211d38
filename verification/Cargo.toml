[package]
name = "rsp"
version = "0.1.0"
edition = "2021"
publish = false

[dependencies]
gdal = "*"
image = { version = "*", default-features = false, features = ["png"] }
nalgebra = "*"
ndarray = "*"
thiserror = "*"
