[package]
name = "ibl_sampler"
version = "0.1.0"
edition = "2021"
publish = false

[dependencies]
image = "=0.24.9"
egui = "=0.22.0"
eframe = { version = "=0.22.0", default-features = false, features = ["glow", "default_fonts"] }
rfd = { version = "0.12", default-features = false, features = ["xdg-portal"] }
ron = "=0.8.1"
serde = { version = "=1.0.229", features = ["derive"] }
tempfile = "=3.27.0"
log = "=0.4.34"
libc = "=0.2.191"
libc-stdhandle = "=0.1.0"
