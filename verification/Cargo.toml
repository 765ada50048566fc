[package]
name = "chord_sim"
version = "0.1.0"
edition = "2021"
publish = false

[dependencies]
fastrand = "*"
bytemuck = "*"
futures-intrusive = "*"
pollster = "*"
rust_xlsxwriter = "*"
wgpu = { version = "*", default-features = false, features = ["wgsl"] }
