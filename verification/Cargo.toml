[package]
name = "sc2dsu"
version = "0.1.0"
edition = "2021"
publish = false

[dependencies]
eframe = { version = "0.31", default-features = false, features = ["default_fonts", "glow", "x11"] }
hidapi = { version = "2.6", default-features = false, features = ["linux-native-basic-udev"] }
tray-icon = { version = "0.20", default-features = false }
windows-sys = { version = "0.59", features = ["Win32_Foundation", "Win32_System_Console"] }
