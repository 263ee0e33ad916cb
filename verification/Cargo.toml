[package]
name = "howrs"
version = "0.1.0"
edition = "2021"
publish = false

[dependencies]
anyhow = "*"
clap = { version = "*", features = ["derive"] }
env_logger = "*"
image = "*"
libc = "*"
log = "*"
ndarray = "*"
ort = "=2.0.0-rc.13"
postcard = { version = "*", features = ["alloc"] }
serde = { version = "*", features = ["derive"] }
toml = "*"
uuid = { version = "*", features = ["v4"] }
v4l = "*"
