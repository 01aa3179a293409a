[package]
name = "seeyue_mcp"
version = "0.1.0"
edition = "2021"
publish = false

[dependencies]
chrono = "*"
encoding_rs = "*"
globset = "*"
ignore = "*"
once_cell = "*"
regex = "*"
reqwest = { version = "*", default-features = false, features = ["json"] }
rusqlite = { version = "*", features = ["bundled"] }
serde = { version = "*", features = ["derive"] }
serde_json = "*"
serde_yaml = "*"
tokio = { version = "*", features = ["rt-multi-thread", "macros", "process", "time"] }
walkdir = "*"
which = "*"
windows-sys = { version = "*", features = ["Win32_Globalization", "Win32_System_SystemInformation", "Win32_Storage_FileSystem", "Win32_Foundation"] }
