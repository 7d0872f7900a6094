[package]
name = "chip8"
version = "0.1.0"
edition = "2021"
publish = false

[dependencies]
rand = "0.7"
pixels = "*"
winit = "*"
winit_input_helper = "*"
