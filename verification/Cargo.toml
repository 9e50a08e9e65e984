[package]
name = "engine_render"
version = "0.1.0"
edition = "2021"
publish = false

[dependencies]
core_affinity = "0.8"
glam = "0.30"
image = { version = "0.25", default-features = false, features = ["png"] }
libloading = "0.8"
parking_lot = "0.12"
proc-macro-crate = "3"
proc-macro2 = "1"
quote = "1"
smallvec = "1"
syn = { version = "2", features = ["full"] }
vulkano = "0.35"
vulkano-util = "0.35"
winit = "0.30"
