[package]
name = "nanai-lite-rammap"
version = "0.1.0"
edition = "2021"
publish = false

[dependencies]
windows = { version = "*", features = ["Win32_Foundation", "Win32_Graphics_Dxgi", "Win32_Graphics_Dxgi_Common", "Win32_System_LibraryLoader", "Win32_System_Threading", "Win32_System_Diagnostics_ToolHelp", "Win32_System_ProcessStatus", "Win32_System_SystemInformation"] }
windows-reactor = "*"
