[package]
name = "link_window_to_monitor"
version = "0.1.0"
edition = "2021"
publish = false

[dependencies]
bevy_app = "*"
bevy_ecs = "*"
bevy_window = "*"
bevy_winit = { version = "*", features = ["x11"] }
