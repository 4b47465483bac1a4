[package]
name = "mini_badger"
version = "0.1.0"
edition = "2021"
publish = false

[dependencies]
cocoa = "*"
dirs = "*"
image = "*"
objc = "*"
serde = { version = "1", features = ["derive"] }
toml = "*"
tray-icon = "*"
winit = "0.28"
