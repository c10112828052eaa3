[package]
name = "screencap"
version = "0.1.0"
edition = "2021"
publish = false

[dependencies]
fast_image_resize = "=2.7.3"
mlua = { version = "=0.9.9", features = ["lua54", "module"] }
windows-capture = "=1.0.68"
