[package]
name = "rustile"
version = "0.1.0"
edition = "2021"
publish = false

[dependencies]
x11rb = "0.13"
xkeysym = "0.2"
calloop = "0.14"
wayland-server = "0.31"
smithay = { version = "*", default-features = false, features = ["backend_winit", "renderer_gl", "wayland_frontend", "desktop"] }
