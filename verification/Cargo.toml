[package]
name = "kirie"
version = "0.1.0"
edition = "2021"
publish = false

[dependencies]
blake3 = "=1.8.7"
bytemuck = { version = "=1.25.2", features = ["derive"] }
cosmic-text = "=0.19.0"
naga = { version = "=30.0.1", features = ["glsl-in", "wgsl-out"] }
rayon = "=1.12.0"
serde_json = "=1.0.154"
thiserror = "=2.0.21"
tracing = "=0.1.44"
wgpu = { version = "=30.0.1", features = ["naga-ir"] }
