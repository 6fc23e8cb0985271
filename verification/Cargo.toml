[package]
name = "fractal_map"
version = "0.1.0"
edition = "2021"
publish = false

[dependencies]
rand_chacha = "=0.2.2"
rand = "=0.7.3"
noise = { version = "=0.7.0", default-features = false }
bevy = { version = "=0.5.0", default-features = false, features = ["render", "bevy_winit", "bevy_wgpu", "x11"] }
bevy_egui = "=0.5.0"
