[package]
name = "sofle-plus2-viewer"
version = "0.1.0"
edition = "2021"
publish = false

[dependencies]
eframe = { version = "0.30", default-features = false, features = ["default_fonts", "glow", "x11", "wayland"] }
egui = "0.30"
winit = { version = "0.30", default-features = false, features = ["x11", "wayland", "rwh_06"] }
libc = "0.2"
hidapi = "2"
