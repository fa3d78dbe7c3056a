[package]
name = "nss_innernet"
version = "0.1.0"
edition = "2021"
publish = false

[dependencies]
serde_json = "*"
libnss = "*"
libc = "*"
lazy_static = "*"
