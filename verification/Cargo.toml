[package]
name = "inappropriate_video_handler"
version = "0.1.0"
edition = "2021"
publish = false

[dependencies]
anyhow = "1"
chrono = "0.4"
clap = "4"
nix = { version = "0.29", features = ["signal"] }
regex = "1"
serde = { version = "1", features = ["derive"] }
serde_yaml = "0.9"
x11 = { version = "2", features = ["xlib"] }
