[package]
name = "reveal_viewer"
version = "0.1.0"
edition = "2021"
publish = false

[dependencies]
lexical-sort = "=0.3.1"
kamadak-exif = "=0.6.1"
image = "=0.25.10"
serde = { version = "1", features = ["derive"] }
serde_json = "1"
directories = "6"
arboard = "3"
trash = "5"
open = "5"
crossbeam-channel = "0.5"
rand = "0.9"
clap = { version = "4", features = ["derive"] }
jxl-oxide = "0.12"
resvg = "0.45"
usvg = "0.45"
fast_image_resize = "5"
log = "0.4"
env_logger = "0.11"
thiserror = "2"
