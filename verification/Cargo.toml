[package]
name = "native_iqa"
version = "0.1.0"
edition = "2021"
publish = false

[dependencies]
image = { version = "0.25", default-features = false, features = ["jpeg", "png", "webp", "bmp", "tiff"] }
napi = { version = "2", features = ["napi4"] }
napi-derive = "2"
rayon = "1"
