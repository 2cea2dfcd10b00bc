[package]
name = "oxide_os"
version = "0.1.0"
edition = "2021"
publish = false

[dependencies]
bootloader = { version = "=0.9.35", features = ["map_physical_memory"] }
spin = "=0.9.9"
x86_64 = { version = "=0.15.5", default-features = false, features = ["instructions"] }
