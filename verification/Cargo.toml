[package]
name = "rust_osm_renderer"
version = "0.1.0"
edition = "2021"
publish = false

[dependencies]
anyhow = "1"
ash = "0.38"
axum = "0.7"
byteorder = "1"
env_logger = "0.11"
gpu-allocator = { version = "0.27", default-features = false, features = ["vulkan"] }
image = { version = "0.25", default-features = false, features = ["png"] }
log = "0.4"
memmap2 = "0.9"
osmpbf = "0.3"
thiserror = "1"
tokio = { version = "1", features = ["rt-multi-thread", "macros", "net"] }
tower-http = { version = "0.5", features = ["fs"] }
