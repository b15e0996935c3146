[package]
name = "glycin_ng"
version = "0.1.0"
edition = "2021"
publish = false

[dependencies]
image = { version = "0.25", default-features = false, features = ["png", "jpeg", "gif", "webp", "tiff", "bmp"] }
quick-xml = "0.37"
base64 = "0.22"
libc = "0.2"
resvg = "0.45"
bitflags = "2"
