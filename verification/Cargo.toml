[package]
name = "usd_bevy"
version = "0.1.0"
edition = "2021"
publish = false

[dependencies]
anyhow = "=1.0.104"
bevy = { version = "=0.19.1", default-features = false, features = ["bevy_asset", "bevy_pbr", "bevy_log", "shader_format_wesl", "png", "jpeg"] }
openusd = { version = "=0.6.0", features = ["geom", "physics", "lux", "media", "proc", "render", "shade", "skel", "ui"] }
ron = "=0.12.3"
serde = { version = "=1.0.229", features = ["derive"] }

[dev-dependencies]
wesl = { version = "0.3", default-features = false }
