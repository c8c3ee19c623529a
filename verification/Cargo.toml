[package]
name = "cj"
version = "1.0.0"
edition = "2021"
publish = false

[dependencies]
dunce = "*"
serde = { version = "*", features = ["derive"] }
serde_json = "*"
toml = "*"
windows = { version = "*", features = ["Foundation", "Foundation_Collections", "Storage", "Storage_Provider", "Win32_Storage_FileSystem", "Win32_System_WinRT", "Win32_System_WindowsProgramming"] }
