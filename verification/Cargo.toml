[package]
name = "face_cascade"
version = "0.1.0"
edition = "2021"
publish = false

[dependencies]
anyhow = "=1.0.104"
fast_image_resize = "=5.5.0"
gl = "=0.14.0"
glutin = "=0.32.3"
glutin-winit = "=0.5.0"
image = { version = "=0.25.10", default-features = false, features = ["png"] }
kamera = "=0.0.2"
ndarray = "=0.17.2"
nvgx = "=0.3.3"
nvgx-ogl = "=0.3.0"
ort = { version = "=2.0.0-rc.15", default-features = false, features = ["std", "ndarray", "directml"] }
raw-window-handle = "=0.6.2"
rayon = "=1.12.0"
tracing-subscriber = "=0.3.23"
tracy-client = "=0.19.0"
winit = "=0.30.13"
