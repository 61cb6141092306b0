[package]
name = "clam5"
version = "0.1.0"
edition = "2021"
publish = false

[dependencies]
failure = "*"
gl = "*"
ocl = "*"
openvr = "*"
sdl2 = { version = "*", features = ["ttf"] }
