[package]
name = "tunnel_bridge"
version = "0.1.0"
edition = "2021"
publish = false

[dependencies]
jni = "0.21"
log = "*"
android_logger = "*"
rustix = { version = "*", features = ["pipe", "stdio"] }
