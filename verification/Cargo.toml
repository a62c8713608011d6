[package]
name = "ptui"
version = "0.1.0"
edition = "2021"
publish = false

[dependencies]
ansi-to-tui = "6"
base64 = "=0.22.1"
content_inspector = "=0.2.4"
crossterm = "=0.28.1"
dirs = "=5.0.1"
fluent = "=0.16.1"
image = { version = "=0.25.10", default-features = false, features = ["jpeg", "png", "gif", "bmp", "webp", "tiff"] }
notify = "=6.1.1"
ratatui = "0.28"
ratatui-image = "2"
serde = { version = "=1.0.229", features = ["derive"] }
serde_json = "=1.0.154"
turbojpeg = "=1.5.1"
unic-langid = "=0.9.6"
zune-jpeg = "=0.4.21"

[dev-dependencies]
tempfile = "=3.27.0"
