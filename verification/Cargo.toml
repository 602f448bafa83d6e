[package]
name = "raycore"
version = "0.1.0"
edition = "2021"
publish = false

[dependencies]
glam = "0.22"
pixels = "0.10"
winit = "0.27"
