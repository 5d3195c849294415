[package]
name = "mandelbrot"
version = "0.1.0"
edition = "2021"
publish = false

[dependencies]
rayon = "1"
piston_window = "0.120"
gfx_device_gl = "0.16"
image = "0.23"
