[package]
name = "gpu_pools"
version = "0.1.0"
edition = "2021"
publish = false

[dependencies]
gfx-hal = "0.9"
