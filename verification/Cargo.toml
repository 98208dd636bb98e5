[package]
name = "tazamun_gui"
version = "0.1.0"
edition = "2021"
publish = false

[dependencies]
eframe = { version = "0.35", default-features = false, features = ["glow", "x11"] }
egui = "0.35"
rfd = "0.15"
serde = { version = "1", features = ["derive"] }
serde_json = "1"
tempfile = "3"
