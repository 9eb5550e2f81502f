[package]
name = "bevy_gltf_draco"
version = "0.1.0"
edition = "2021"
publish = false

[dependencies]
bevy = { version = "=0.19.1", default-features = false, features = ["bevy_gltf", "bevy_mesh"] }
draco_decoder = "=0.0.31"
futures = "0.3"
gltf = { version = "=1.4.1", default-features = false, features = ["extensions", "extras", "names", "utils"] }
serde = { version = "=1.0.229", features = ["derive"] }
serde_json = "=1.0.154"
tracing = "=0.1.44"
wasm-bindgen-futures = "=0.4.80"
