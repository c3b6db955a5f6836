[package]
name = "raytracer"
version = "0.1.0"
edition = "2021"
publish = false

[dependencies]
image = { version = "*", default-features = false, features = ["png"] }
wgpu = "*"
bytemuck = { version = "*", features = ["derive"] }
glam = "*"
log = "*"
env_logger = "*"
indicatif = "*"
pollster = "*"
