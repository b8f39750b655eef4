[package]
name = "cosmic_comp"
version = "0.1.0"
edition = "2021"
publish = false

[dependencies]
futures-executor = "0.3"
futures-util = "0.3"
glam = "*"
indexmap = "2"
smithay = { version = "0.7", default-features = false, features = ["renderer_glow", "wayland_frontend"] }
tracing = "0.1"
zbus = "5"
