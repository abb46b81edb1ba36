[package]
name = "dbk64"
version = "0.1.0"
edition = "2021"
publish = false

[dependencies]
dataview = "=1.1.0"
windows = { version = "=0.58.0", features = ["Win32_Foundation", "Win32_Storage_FileSystem", "Win32_System_IO", "Win32_Security"] }
