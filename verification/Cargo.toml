[package]
name = "road_guidance"
version = "0.1.0"
edition = "2021"
publish = false

[dependencies]
bevy = { version = "=0.8.1", default-features = false, features = ["animation", "bevy_asset", "bevy_gltf", "bevy_scene", "bevy_winit", "hdr", "png", "render", "x11"] }
bevy_rapier3d = { version = "=0.16.2", default-features = false, features = ["dim3", "debug-render"] }
serde = { version = "=1.0.229", features = ["derive"] }
serde_json = "=1.0.154"
wasm-bindgen = "=0.2.129"
wasm-bindgen-futures = "=0.4.79"
js-sys = "=0.3.106"
web-sys = { version = "=0.3.72", features = ["console", "Window", "Response", "ReadableStream", "ReadableStreamDefaultReader"] }
