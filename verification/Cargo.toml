[package]
name = "vc2"
version = "0.1.0"
edition = "2021"
publish = false

[dependencies]
gumdrop = "0.8"
image = { version = "0.24", default-features = false, features = ["png", "jpeg"] }
itertools = "0.10"
log = "0.4"
sdl2 = "0.35"
simple_logger = "4"
