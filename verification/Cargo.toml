[package]
name = "waydoodle"
version = "0.1.0"
edition = "2021"
publish = false

[dependencies]
bdf-reader = "*"
cairo-rs = "*"
smithay-client-toolkit = "*"
wayland-client = "*"
wayland-cursor = "*"
wayland-protocols = { version = "*", features = ["client", "staging", "unstable"] }
calloop = "*"
ksni = "*"
zbus = "*"
evdev = "*"
udev = "*"
libc = "*"
log = "*"
env_logger = "*"
serde = { version = "*", features = ["derive"] }
toml = "*"
ashpd = "*"
async-channel = "*"
async-signal = "*"
futures-lite = "*"
