[package]
name = "nereid-server"
version = "0.1.0"
edition = "2021"
publish = false

[dependencies]
axum = "0.8"
cxx = "1"
half = "2"
ort = { version = "=2.0.0-rc.11", default-features = false, features = ["load-dynamic", "std", "half"] }
prost = "0.14"
serde = { version = "1", features = ["derive"] }
serde_yaml = "0.9"
tch = { version = "0.22", features = ["doc-only"] }
tensorflow = "0.21"
tokio = { version = "1", features = ["full"] }
tokio-stream = { version = "0.1", features = ["net"] }
tonic = "0.14"
tonic-prost = "0.14"
