[package]
name = "map_editor"
version = "0.1.0"
edition = "2021"
publish = false

[dependencies]
serde = { version = "1", features = ["derive"] }
uuid = { version = "1", features = ["v4", "serde"] }
glam = "0.29"
noise = "0.9"
egui = "0.31"
eframe = { version = "0.31", default-features = false, features = ["default_fonts", "glow", "x11"] }
