[package]
name = "vocieplayer"
version = "0.1.0"
edition = "2021"
publish = false

[dependencies]
anyhow = "1"
eframe = { version = "0.29", default-features = false, features = ["default_fonts", "glow", "x11"] }
egui = { version = "0.29", default-features = false, features = ["default_fonts"] }
global-hotkey = "0.6"
log = "0.4"
rfd = { version = "0.15", default-features = false, features = ["xdg-portal", "tokio"] }
