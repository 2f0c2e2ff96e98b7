[package]
name = "swsurface"
version = "0.1.0"
edition = "2021"
publish = false

[dependencies]
cocoa = "=0.19.1"
either = "=1.19.0"
fragile = "=1.2.2"
lazy_static = "=1.5.1"
log = "=0.4.34"
owning_ref = "=0.4.1"
smithay-client-toolkit = "=0.6.6"
wayland-client = "=0.23.6"
wayland-sys = "=0.23.6"
winapi = { version = "=0.3.9", features = ["windef", "wingdi", "winuser"] }
winit = "=0.20.0"
x11-dl = "=2.21.0"
