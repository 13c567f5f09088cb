[package]
name = "vrc_canvas"
version = "0.1.0"
edition = "2021"
publish = false

[dependencies]
rosc = "0.10"
anyhow = "1"
log = "0.4"
once_cell = "1"
tokio = { version = "1", features = ["rt-multi-thread", "macros", "sync", "time"] }
eframe = { version = "0.22", default-features = false, features = ["default_fonts", "glow"] }
egui_logger = "0.3"
