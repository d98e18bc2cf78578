[package]
name = "i3_switcher_x11"
version = "0.1.0"
edition = "2021"
publish = false

[dependencies]
dirs = "5"
env_logger = "0.11"
gdk4 = "0.8"
gtk4 = "0.8"
i3ipc = "0.10"
log = "0.4"
x11 = { version = "2", features = ["xlib"] }
xcap = "0.0"
