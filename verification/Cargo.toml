[package]
name = "blorb_browser"
version = "0.1.0"
edition = "2021"
publish = false

[dependencies]
egui_extras = { version = "0.27", features = ["image"] }
image = { version = "0.24", default-features = false, features = ["png", "jpeg"] }
strum = "0.26"
strum_macros = "0.26"
