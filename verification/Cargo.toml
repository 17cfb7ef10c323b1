[package]
name = "wallpaper_tool"
version = "0.1.0"
edition = "2021"
publish = false

[dependencies]
image = "=0.24.9"
imageproc = "=0.23.1"
rusttype = "=0.9.3"
serde = { version = "=1.0.229", features = ["derive"] }
eframe = { version = "=0.37.0", default-features = false, features = ["glow", "x11", "default_fonts"] }
windows = { version = "0.58", features = ["Win32_Foundation", "Win32_UI_WindowsAndMessaging", "Win32_UI_HiDpi"] }
wmi = "=0.13.4"
