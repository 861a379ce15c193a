[package]
name = "fractal_core"
version = "0.1.0"
edition = "2021"
publish = false

[dependencies]
image = "*"
num-complex = "*"
num-integer = "*"
rayon = "*"
