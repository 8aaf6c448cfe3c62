[package]
name = "directory-octopus"
version = "0.1.0"
edition = "2021"
publish = false

[dependencies]
regex = "*"
glob = "*"
serde = { version = "*", features = ["derive"] }
toml = "*"
chrono = "*"
sysinfo = "*"
filetime = "*"
open = "*"
egui = "*"
eframe = { version = "*", default-features = false, features = ["glow", "x11", "default_fonts"] }
