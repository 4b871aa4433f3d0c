[package]
name = "cuttle"
version = "0.1.0"
edition = "2021"
publish = false

[dependencies]
itertools = "=0.13.0"
convert_case = "=0.6.0"
bytemuck = { version = "=1.25.2", features = ["derive"] }
bevy = { version = "=0.15.3", default-features = false, features = ["bevy_render", "bevy_core_pipeline", "bevy_asset", "bevy_gizmos", "bevy_sprite", "bevy_ui"] }
