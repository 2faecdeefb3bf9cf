[package]
name = "daemon_spawn"
version = "0.1.0"
edition = "2021"
publish = false

[dependencies]
rand = "=0.9.5"
anyhow = "=1.0.104"
tokio = { version = "=1.54.1", features = ["process", "rt"] }
windows = { version = "=0.58.0", features = ["Win32_Foundation", "Win32_Security", "Win32_System_Com", "Win32_System_Rpc", "Win32_System_Variant", "Win32_System_Wmi"] }
windows-sys = { version = "=0.52.0", features = ["Win32_Foundation", "Win32_Globalization", "Win32_Security", "Win32_Security_Authorization", "Win32_Storage_FileSystem", "Win32_System_Com", "Win32_System_IO", "Win32_System_JobObjects", "Win32_System_Memory", "Win32_System_Pipes", "Win32_System_Rpc", "Win32_System_Threading", "Win32_System_Wmi"] }
