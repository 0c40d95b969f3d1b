[package]
name = "dir_crawler"
version = "0.1.0"
edition = "2021"
publish = false

[dependencies]
itertools = "0.14"
walkdir = "2"
eyre = "0.6"
tracing = "0.1"
tokio = { version = "1", features = ["rt-multi-thread", "time"] }
eframe = { version = "0.31", default-features = false, features = ["glow", "default_fonts", "x11"] }
egui_extras = { version = "0.31", default-features = false }
