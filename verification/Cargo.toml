[package]
name = "winsoftvol"
version = "0.1.0"
edition = "2021"
publish = false

[dependencies]
anyhow = "1"
serde = { version = "1", features = ["derive"] }
toml = "0.8"
winreg = "0.52"
image = { version = "0.25", default-features = false, features = ["png"] }
muda = "*"
tray-icon = "*"
windows = { version = "0.52", features = ["implement", "Win32_Foundation", "Win32_Globalization", "Win32_Media_Audio", "Win32_Media_Audio_Endpoints", "Win32_System_Com", "Win32_System_Com_StructuredStorage", "Win32_System_LibraryLoader", "Win32_System_SystemInformation", "Win32_System_Threading", "Win32_System_Variant", "Win32_Security", "Win32_UI_Controls", "Win32_UI_Shell", "Win32_UI_Shell_PropertiesSystem", "Win32_UI_WindowsAndMessaging", "Data_Xml_Dom", "UI_Notifications"] }
