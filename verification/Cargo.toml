[package]
name = "gltf_mesh"
version = "0.1.0"
edition = "2021"
publish = false

[dependencies]
json = "0.12"
cgmath = "0.18"
bytemuck = { version = "1", features = ["derive"] }
env_logger = "0.10"
wgpu = "0.16"
winit = "0.28"
