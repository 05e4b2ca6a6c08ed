[package]
name = "clipimg"
version = "1.0.12"
edition = "2021"
publish = false

[dependencies]
serde = { version = "1", features = ["derive"] }
serde_json = "1"
md-5 = "0.10"
image = { version = "0.25", default-features = false, features = ["png"] }
log = "0.4"
arboard = "3"
global-hotkey = "*"
muda = "*"
tray-icon = "*"
windows-sys = { version = "0.60", features = ["Win32_Foundation", "Win32_UI_WindowsAndMessaging", "Win32_System_DataExchange", "Win32_System_Memory", "Win32_UI_Input_KeyboardAndMouse", "Win32_System_Threading", "Win32_Storage_FileSystem", "Win32_System_IO", "Win32_System_Registry", "Win32_System_SystemInformation"] }
