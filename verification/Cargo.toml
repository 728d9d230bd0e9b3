[package]
name = "level_editor"
version = "0.1.0"
edition = "2021"
publish = false

[dependencies]
serde_json = "1"
serde = { version = "1", features = ["derive"] }
egui = "0.28"
image = { version = "0.25", default-features = false, features = ["png", "jpeg"] }
