[package]
name = "serial_plotter"
version = "0.1.0"
edition = "2021"
publish = false

[dependencies]
chrono = "=0.4.45"
crossbeam = "=0.8.5"
eframe = { version = "=0.32.3", default-features = false, features = ["default_fonts", "glow", "x11"] }
egui_plot = "=0.33.0"
parking_lot = "=0.12.5"
serialport = { version = "=4.10.1", default-features = false }

[dev-dependencies]
regex = "=1.13.1"
