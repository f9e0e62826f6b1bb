[package]
name = "configurator"
version = "0.1.0"
edition = "2021"
publish = false

[dependencies]
toml = "0.8"
once_cell = "1"
bevy_reflect = { version = "0.15", default-features = false }
winapi = { version = "0.3", features = ["d3d9", "d3d9types", "wingdi", "winuser", "windef", "minwindef", "ntdef", "guiddef", "unknwnbase"] }
