[package]
name = "click_to_move"
version = "0.1.0"
edition = "2021"
publish = false

[dependencies]
bevy = { version = "=0.15.3", default-features = false, features = ["bevy_asset", "bevy_color", "bevy_core_pipeline", "bevy_pbr", "bevy_render", "bevy_scene", "bevy_window"] }
reqwest = { version = "0.12", default-features = false, features = ["blocking", "rustls-tls"] }
