[package]
name = "hints"
version = "0.1.0"
edition = "2021"
publish = false

[dependencies]
atspi = "0.21"
cairo-rs = "0.18"
clap = { version = "4", features = ["derive"] }
env_logger = "0.11"
evdev = "0.12"
gdk = "0.18"
glib = "0.18"
gtk = "0.18"
image = { version = "0.24", default-features = false }
imageproc = { version = "0.23", default-features = false }
log = "0.4"
serde = { version = "1", features = ["derive"] }
serde_json = "1"
tokio = { version = "1", features = ["rt-multi-thread"] }
x11rb = { version = "0.13", features = ["allow-unsafe-code"] }
