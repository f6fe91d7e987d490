[package]
name = "fps_walkthrough"
version = "0.1.0"
edition = "2021"
publish = false

[dependencies]
bevy = { version = "=0.18.1", default-features = false, features = ["std", "bevy_winit", "x11", "bevy_window", "bevy_asset", "bevy_color", "bevy_mesh", "bevy_camera", "bevy_light", "bevy_render", "bevy_core_pipeline", "bevy_pbr", "keyboard", "mouse"] }
noise = "=0.9.0"
