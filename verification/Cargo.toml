[package]
name = "cleankakao"
version = "0.1.0"
edition = "2021"
publish = false

[dependencies]
semver = "1"
serde = { version = "1", features = ["derive"] }
toml = "0.8"
dirs = "6"
log = "0.4"
env_logger = "0.11"
windows = { version = "0.61", features = ["Win32_Foundation", "Win32_Graphics_Gdi", "Win32_Graphics_Dwm", "Win32_System_Threading", "Win32_System_Registry", "Win32_System_Diagnostics_ToolHelp", "Win32_System_SystemInformation", "Win32_UI_WindowsAndMessaging", "Win32_UI_Accessibility", "Win32_UI_Input_KeyboardAndMouse", "Win32_UI_Controls", "Data_Xml_Dom", "UI_Notifications"] }
tokio = { version = "1", features = ["rt", "rt-multi-thread"] }
reqwest = { version = "0.12", default-features = false, features = ["json"] }
muda = "0.17"
tray-icon = "0.21"
image = { version = "0.25", default-features = false, features = ["ico"] }
