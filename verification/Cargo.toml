[package]
name = "mandelbrot"
version = "0.1.0"
edition = "2021"
publish = false

[dependencies]
ggez = "0.5"
num = "0.2"
palette = "0.5"
rayon = "1"
