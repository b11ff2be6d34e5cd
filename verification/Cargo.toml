[package]
name = "scalar_series"
version = "0.1.0"
edition = "2021"
publish = false

[dependencies]
egui = { version = "0.25", default-features = false }
