[package]
name = "slides_rs"
version = "0.1.0"
edition = "2021"
publish = false

[dependencies]
minijinja = "2"
serde_yaml = "0.9"
serde_json = "1"
glob = "0.3"
pulldown-cmark = "*"
rand = "0.8"
clap = { version = "4", features = ["derive"] }
env_logger = "0.11"
log = "0.4"
notify-debouncer-mini = "0.4"
zip = { version = "2", default-features = false, features = ["deflate"] }
md-5 = "0.10"
image = { version = "0.25", default-features = false, features = ["png", "jpeg"] }
printpdf = { version = "0.7", features = ["embedded_images"] }
lopdf = "0.34"
headless_chrome = "1"
