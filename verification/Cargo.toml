[package]
name = "scene_inspector"
version = "0.1.0"
edition = "2021"
publish = false

[dependencies]
bevy = { version = "=0.11.3", default-features = false, features = ["bevy_asset"] }
bevy_reflect = "=0.11.3"
egui_dock = "=0.6.3"
egui-gizmo = "=0.11.0"
log = "=0.4.34"
ron = "=0.8.1"
serde = "=1.0.229"
wasm-logger = "0.2"
web-sys = { version = "0.3", features = ["Document", "Window"] }
yew = { version = "0.20", features = ["csr"] }
