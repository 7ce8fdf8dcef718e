[package]
name = "ergodox-display"
version = "0.1.0"
edition = "2021"
publish = false

[dependencies]
serde = { version = "1", features = ["derive"] }
serde_json = "1"
ureq = "2"
hidapi = "2"
tauri = { version = "2", default-features = false }
xcb = "1"
xkbcommon = { version = "0.8", features = ["x11"] }
windows-sys = { version = "0.59", features = ["Win32_Foundation", "Win32_Globalization", "Win32_UI_Input_KeyboardAndMouse", "Win32_UI_WindowsAndMessaging"] }
