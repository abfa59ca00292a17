[package]
name = "mirust"
version = "0.1.0"
edition = "2021"
publish = false

[dependencies]
windows = { version = "*", features = ["Win32_Foundation", "Win32_Globalization", "Win32_System_Threading", "Win32_UI_WindowsAndMessaging"] }
