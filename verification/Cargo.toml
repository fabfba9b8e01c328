[package]
name = "ymir"
version = "0.1.0"
edition = "2021"
publish = false

[dependencies]
bevy = { version = "0.10", default-features = false, features = ["bevy_winit"] }
bevy_pixels = "0.9"
bracket-noise = "0.8"
rand = "0.8"
