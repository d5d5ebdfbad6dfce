[package]
name = "hypr_panel"
version = "0.1.0"
edition = "2021"
publish = false

[dependencies]
async-channel = "*"
cairo-rs = "*"
chrono = "*"
gtk4 = "*"
gtk4-layer-shell = "*"
libc = "*"
pango = "*"
pangocairo = "*"
serde_json = "*"
udev = "*"
