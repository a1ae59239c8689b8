[package]
name = "rust_opengl"
version = "0.1.0"
edition = "2021"
publish = false

[dependencies]
cgmath = "*"
genmesh = "*"
glium = "*"
image = { version = "*", default-features = false, features = ["jpeg"] }
obj = { version = "*", features = ["genmesh"] }
