[package]
name = "easycad"
version = "0.1.0"
edition = "2021"
publish = false

[dependencies]
anyhow = "=1.0.104"
bytemuck = { version = "=1.25.2", features = ["derive"] }
dxf = "=0.6.2"
egui = "=0.27.2"
egui-winit = { version = "=0.27.2", default-features = false }
env_logger = { version = "=0.11.11", default-features = false }
meval = "=0.2.0"
winit = { version = "=0.29.15", default-features = false, features = ["rwh_06", "x11"] }
