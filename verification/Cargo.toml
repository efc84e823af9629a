[package]
name = "infini_attention"
version = "0.1.0"
edition = "2021"
publish = false

[dependencies]
anyhow = "1"
bytemuck = "1"
clap = { version = "4", features = ["derive"] }
futures = "0.3"
futures-intrusive = "0.5"
ndarray = "0.15"
ndarray-rand = "0.14"
rand = "0.8"
wgpu = "22"
