[package]
name = "madparts"
version = "0.1.0"
edition = "2021"
publish = false

[dependencies]
serde_json = "1"
chrono = "0.4"
gtk = "0.18"
gio = "0.18"
glib = "0.18"
gdk-pixbuf = "0.18"
cairo-rs = "0.18"
pyo3 = "0.20"
inotify = "0.10"
clap = "4"
env_logger = "0.10"
log = "0.4"
tempfile = "3"
