[package]
name = "qview_gui"
version = "0.1.0"
edition = "2021"
publish = false

[dependencies]
anyhow = "1"
egui = { version = "*", default-features = false, features = ["default_fonts"] }
memchr = "2"
rfd = "*"
serde = { version = "1", features = ["derive"] }
serde_json = "1"
