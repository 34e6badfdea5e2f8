[package]
name = "ndk-glue"
version = "0.7.0"
edition = "2021"
publish = false

[dependencies]
android_logger = "=0.14.1"
log = "=0.4.35"
ndk = "=0.9.0"
ndk-macro = "=0.3.0"
ndk-sys = { version = "=0.6.0", features = ["test"] }
parking_lot = "=0.12.5"
rustix = { version = "=0.38.44", features = ["pipe", "stdio"] }
