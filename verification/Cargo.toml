[package]
name = "waybar"
version = "0.1.0"
edition = "2021"
publish = false

[dependencies]
tokio = { version = "1", features = ["rt-multi-thread", "sync", "signal", "time"] }
udev = "*"
nix = { version = "*", features = ["poll"] }
structopt = "0.3"
humantime = "2"
