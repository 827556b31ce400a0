[package]
name = "ortseam_gui"
version = "0.1.0"
edition = "2021"
publish = false

[dependencies]
egui = "*"
eframe = { version = "*", default-features = false, features = ["default_fonts", "glow", "x11"] }
serde = { version = "1", features = ["derive"] }
serde_json = "1"
chrono = "0.4"
