[package]
name = "noel_editor"
version = "0.1.0"
edition = "2021"
publish = false

[dependencies]
egui = "=0.29.1"
egui_extras = { version = "=0.29.1", default-features = false }
eframe = { version = "=0.29.1", default-features = false, features = ["default_fonts", "glow", "x11"] }
simsearch = "0.2"
