[package]
name = "win_global_gpu"
version = "0.1.0"
edition = "2021"
publish = false

[dependencies]
anyhow = "1"
bytemuck = "1"
pico-args = "0.5"
rustc-hash = "2"
uiautomation = "*"
windows = { version = "0.56", features = ["Win32_Foundation", "Win32_Security", "Win32_Storage_FileSystem", "Win32_System_Registry", "Win32_UI_WindowsAndMessaging"] }
