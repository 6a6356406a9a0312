[package]
name = "mir_project"
version = "0.1.0"
edition = "2021"
publish = false

[dependencies]
crossbeam-channel = "0.5"
rustfft = "6"
cpal = "0.15"
ron = "0.8"
serde = { version = "1", features = ["derive"] }
egui_plot = "0.27"
