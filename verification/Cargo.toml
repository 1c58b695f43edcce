[package]
name = "opendeck_m3"
version = "0.1.0"
edition = "2021"
publish = false

[dependencies]
anyhow = "=1.0.104"
async-hid = { version = "=0.5.3", default-features = false, features = ["tokio"] }
base64 = "=0.22.1"
data-url = "=0.3.2"
dirs = "=7.0.0"
eframe = { version = "=0.37.0", default-features = false, features = ["glow", "x11", "default_fonts"] }
futures-lite = "=2.6.1"
image = { version = "=0.25.10", default-features = false, features = ["jpeg", "png"] }
libloading = "=0.8.9"
log = "=0.4.35"
mirajazz = "=0.16.3"
openaction = "=2.8.0"
rfd = { version = "=0.16.1", default-features = false, features = ["xdg-portal", "tokio"] }
serde = { version = "=1.0.229", features = ["derive"] }
serde_json = "=1.0.154"
simplelog = "=0.12.2"
tokio = { version = "=1.54.1", features = ["full"] }
tokio-util = { version = "=0.7.20", features = ["rt"] }
