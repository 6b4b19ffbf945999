[package]
name = "terrustaria"
version = "0.1.0"
edition = "2021"
publish = false

[dependencies]
rand = "0.8"
bevy = { version = "0.9", default-features = false, features = ["bevy_asset", "bevy_winit", "render", "png", "x11"] }
bevy_ecs_tilemap = "0.9"
bevy_rapier2d = "0.19"
