[package]
name = "sia"
version = "0.2.0"
edition = "2021"
publish = false

[dependencies]
anyhow = "=1.0.104"
clap = { version = "=4.6.7", features = ["derive", "env"] }
env_logger = "=0.11.11"
file-format = "=0.29.0"
fontdue = "=0.9.5"
fs-err = "=3.3.2"
image = { version = "=0.25.10", default-features = false, features = ["png"] }
lazy_static = "=1.5.1"
log = "=0.4.34"
resvg = "=0.49.0"
rgb = "=0.8.53"
rusttype = "=0.9.3"
svg = "=0.18.0"
syntect = { version = "=5.3.0", default-features = false, features = ["default-fancy"] }
thiserror = "=2.0.21"
tiny-skia = "=0.12.0"
tiny-skia-path = "=0.12.0"
two-face = { version = "=0.5.2", default-features = false, features = ["syntect-fancy"] }
usvg = "=0.49.0"

[dev-dependencies]
roxmltree = "=0.21.2"
