[package]
name = "anthroforge"
version = "0.1.0"
edition = "2021"
publish = false

[dependencies]
base64 = "0.22"
gltf = { version = "1.4", default-features = false, features = ["names", "utils"] }
serde_json = "1.0"
