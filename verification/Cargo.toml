[package]
name = "voxel_world"
version = "0.1.0"
edition = "2021"
publish = false

[dependencies]
bytemuck = { version = "1", features = ["derive"] }
fastnoise-lite = "1"
glam = "0.30"
image = { version = "0.25", default-features = false, features = ["png"] }
pollster = "0.4"
rand = "*"
wgpu = "25"
winit = "0.30"
