[package]
name = "fire"
version = "0.1.0"
edition = "2021"
publish = false

[dependencies]
winit = "0.30"
serde = { version = "1", features = ["derive"] }
toml = "0.8"
crossbeam-channel = "0.5"
dirs = "5"
interprocess = "2"
softbuffer = "0.4"
rfd = { version = "0.15", default-features = false, features = ["xdg-portal", "async-std"] }
notify = "6"
image = { version = "0.25", default-features = false, features = ["png", "jpeg", "gif", "bmp", "tiff", "webp", "ico", "tga", "qoi", "pnm", "ff", "hdr", "exr"] }
