[package]
name = "foxix"
version = "0.1.0"
edition = "2021"
publish = false

[dependencies]
vte = "0.14"
unicode-width = "*"
image = "0.25"
winit = "0.30"
glutin = "0.32"
glutin-winit = "0.5"
raw-window-handle = "0.6"
gl = "0.14"
freetype-rs = "*"
libc = "0.2"
anyhow = "1"
log = "0.4"
env_logger = "0.11"
dirs = "*"
serde = { version = "1", features = ["derive"] }
parking_lot = "0.12"
