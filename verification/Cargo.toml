[package]
name = "binder"
version = "0.1.0"
edition = "2021"
publish = false

[dependencies]
byteorder = "1"
encoding = "0.2"
libc = "0.2"
nix = { version = "*", features = ["ioctl", "mman"] }
