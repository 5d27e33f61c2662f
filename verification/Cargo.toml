[package]
name = "openlogi"
version = "0.1.0"
edition = "2021"
publish = false

[dependencies]
anyhow = "1"
async-hid = "0.4"
clap = { version = "4", features = ["derive"] }
core-foundation = "0.10"
core-graphics = "0.25"
evdev = "0.13"
fs4 = "*"
futures-lite = "2"
hidpp = "*"
libc = "0.2"
objc2 = "0.6"
objc2-app-kit = "0.3"
serde_json = "1"
thiserror = "2"
tokio = { version = "1", features = ["rt", "sync", "time", "macros"] }
tracing = "0.1"
tracing-subscriber = { version = "0.3", features = ["env-filter"] }
ureq = "3"
wayland-client = "0.31"
wayland-protocols-wlr = { version = "0.3", features = ["client"] }
x11rb = "0.13"
