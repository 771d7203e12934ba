[package]
name = "merge_sphere"
version = "0.1.0"
edition = "2021"
publish = false

[dependencies]
eframe = "0.17.0"
egui = "0.17.0"
egui_extras = { version = "0.17.0", features = ["image"] }
image = { version = "0.24", default-features = false, features = ["png"] }
imageproc = "0.23"
