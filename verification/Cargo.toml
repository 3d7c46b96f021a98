[package]
name = "voxel_world"
version = "0.1.0"
edition = "2021"
publish = false

[dependencies]
bytemuck = { version = "1", features = ["derive"] }
cgmath = "0.18"
env_logger = { version = "0.10", default-features = false }
image = { version = "0.24", default-features = false, features = ["png"] }
instant = "0.1"
log = "0.4"
noise = { version = "0.9", default-features = false }
