[package]
name = "k3_hera"
version = "0.1.0"
edition = "2021"
publish = false

[dependencies]
half = "*"
libm = "*"
ov-channels = "*"
image = { version = "*", default-features = false, features = ["png"] }
ndarray = "*"
ort = { version = "2.0.0-rc.10", default-features = false, features = ["std", "ndarray", "load-dynamic"] }
