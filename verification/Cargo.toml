[package]
name = "eye_cameras"
version = "0.1.0"
edition = "2021"
publish = false

[dependencies]
anyhow = "1"
glam = "*"
image = { version = "0.25", default-features = false, features = ["jpeg"] }
jni = "0.21"
libc = "0.2"
log = "0.4"
parking_lot = "0.12"
