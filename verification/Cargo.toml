[package]
name = "egui_directx10"
version = "0.1.0"
edition = "2021"
publish = false

[dependencies]
egui = "=0.37.0"
log = "=0.4.34"
windows = { version = "=0.60.0", features = ["Win32_Foundation", "Win32_Graphics_Direct3D", "Win32_Graphics_Direct3D10", "Win32_Graphics_Dxgi_Common"] }
