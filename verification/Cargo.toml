[package]
name = "fastaf_flow"
version = "1.0.0"
edition = "2021"
publish = false

[dependencies]
anyhow = "1"
directories = "6"
eframe = { version = "0.37", default-features = false, features = ["default_fonts", "glow", "x11"] }
hound = "3"
image = { version = "0.25", default-features = false, features = ["png"] }
serde = { version = "1", features = ["derive"] }
serde_json = "1"
sysinfo = { version = "0.37", default-features = false, features = ["system"] }
tempfile = "3"
walkdir = "2"
