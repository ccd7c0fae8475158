[package]
name = "garterm"
version = "0.1.0"
edition = "2021"
publish = false

[dependencies]
base64 = "0.22"
unicode-width = "*"
serde = { version = "1", features = ["derive"] }
serde_json = "1"
vte = "0.13"
toml = "*"
dirs = "*"
nix = { version = "0.29", features = ["term", "process", "signal", "poll", "fs", "ioctl"] }
libc = "0.2"
anyhow = "1"
thiserror = "*"
tracing = "0.1"
tracing-subscriber = { version = "0.3", features = ["env-filter"] }
clap = { version = "4", features = ["derive"] }
mlua = { version = "0.10", features = ["lua54", "vendored"] }
wgpu = "*"
fontdue = "*"
bytemuck = { version = "1", features = ["derive"] }
raw-window-handle = "0.6"
x11-dl = "*"
x11rb = "*"
pollster = "*"
