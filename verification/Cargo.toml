[package]
name = "tinyimg"
version = "0.1.0"
edition = "2021"
publish = false

[dependencies]
anyhow = "1"
bytemuck = { version = "1", features = ["derive"] }
dirs = "*"
fast_image_resize = "*"
image = "0.25"
image-webp = "*"
mozjpeg-rs = "*"
webp = "*"
pollster = "*"
rayon = "1"
serde = { version = "1", features = ["derive"] }
toml = "*"
tracing = "0.1"
tracing-subscriber = { version = "0.3", features = ["env-filter"] }
wgpu = "24"
rust-i18n = "*"
