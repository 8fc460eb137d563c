[package]
name = "voxel4d"
version = "0.1.0"
edition = "2021"
publish = false

[dependencies]
arrayvec = "=0.7.8"
ndarray = "=0.15.6"
byteorder = "=1.5.0"
nalgebra = "=0.31.4"
palette = "=0.6.1"
bytemuck = { version = "=1.25.2", features = ["derive"] }
futures = "=0.3.34"
bevy = { version = "=0.9.1", default-features = false, features = ["bevy_winit", "x11"] }
wgpu = { version = "=0.14.2", features = ["spirv"] }
