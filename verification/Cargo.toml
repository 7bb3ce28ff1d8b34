[package]
name = "antigen"
version = "0.1.0"
edition = "2021"
publish = false

[dependencies]
nom = "=7.1.3"
hecs = "=0.7.7"
crossbeam-channel = "=0.5.17"
bytemuck = { version = "=1.25.2", features = ["derive"] }
nalgebra = "*"
svg = "*"
