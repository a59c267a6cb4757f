[package]
name = "wmutil"
version = "0.1.0"
edition = "2021"
publish = false

[dependencies]
dpi = "*"
windows-sys = { version = "*", features = ["Win32_Foundation", "Win32_Graphics_Gdi", "Win32_System_LibraryLoader", "Win32_UI_HiDpi"] }
