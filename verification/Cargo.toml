[package]
name = "gui_gpu"
version = "0.1.0"
edition = "2021"
publish = false

[dependencies]
bytemuck = "*"
rand = "*"
eframe = { version = "*", default-features = false, features = ["wgpu", "x11", "default_fonts"] }
egui = "*"
env_logger = "*"
notify = "*"
