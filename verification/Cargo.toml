[package]
name = "two_kings"
version = "0.1.0"
edition = "2021"
publish = false

[dependencies]
serde_json = "1"
eframe = { version = "0.29", default-features = false, features = ["default_fonts", "glow", "x11"] }
egui = "0.29"
egui_extras = { version = "0.29", features = ["image"] }
image = { version = "0.25", default-features = false, features = ["png"] }
env_logger = "0.11"
