[package]
name = "ztensor"
version = "0.1.0"
edition = "2021"
publish = false

[dependencies]
num-traits = "*"
num-complex = "*"
dyn-clone = "*"
nalgebra = { version = "*", default-features = false, features = ["std"] }
