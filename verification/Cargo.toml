[package]
name = "chip8"
version = "0.1.0"
edition = "2021"
publish = false

[dependencies]
lazy_static = "1.4"
pixels = "0.9"
rand = "0.8"
winit = "0.26"
winit_input_helper = "0.11"
