[package]
name = "contrast"
version = "0.1.0"
edition = "2021"
publish = false

[dependencies]
eframe = { version = "=0.22.0", default-features = false, features = ["default_fonts", "glow"] }
egui = "=0.22.0"
env_logger = "=0.10.2"
git2 = { version = "=0.17.2", default-features = false }
rfd = "0.14"
