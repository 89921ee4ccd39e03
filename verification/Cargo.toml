[package]
name = "bevy_nui_plugins"
version = "0.1.0"
edition = "2021"
publish = false

[dependencies]
bevy = { version = "=0.19.1", default-features = false, features = ["bevy_render", "bevy_core_pipeline", "bevy_asset", "bevy_window", "bevy_image", "bevy_camera", "bevy_log"] }
bevy_render = { version = "=0.19.1", default-features = false }
neon-eventd = "=0.2.0"
neon-ipc = "=0.2.0"
neon-protocol = "=0.2.0"
neon-ui = "=0.2.0"
neon-world-bridge = "=0.2.0"
serde_json = "=1.0.154"
wgpu = { version = "=29.0.4", default-features = false }
