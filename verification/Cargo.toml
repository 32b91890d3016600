[package]
name = "windows_memory_monitor"
version = "0.1.0"
edition = "2021"
publish = false

[dependencies]
anyhow = "1"
thiserror = "2"
slint = { version = "1", default-features = false, features = ["std", "compat-1-2"] }
windows = { version = "0.61", features = ["Win32_Foundation", "Win32_Graphics_DXCore", "Win32_System_Performance", "Win32_System_ProcessStatus", "Win32_System_SystemInformation", "Win32_System_Threading"] }
