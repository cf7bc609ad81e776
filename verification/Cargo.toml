[package]
name = "gromrik"
version = "1.1.4"
edition = "2021"
publish = false

[dependencies]
ansi_term = "=0.12.1"
crossbeam-channel = "=0.5.17"
eframe = { version = "=0.37.0", default-features = false, features = ["default_fonts", "glow", "x11"] }
egui_extras = { version = "=0.37.0", default-features = false, features = ["image"] }
image = { version = "=0.25.10", default-features = false, features = ["png"] }
env_logger = { version = "=0.11.11", default-features = false, features = ["humantime"] }
log = "=0.4.35"
mimalloc = { version = "=0.1.52", default-features = false }
ratatui = { version = "=0.30.2", default-features = false, features = ["crossterm"] }
regex = "=1.13.1"
serde = { version = "=1.0.229", features = ["derive"] }
serde_json = "=1.0.154"
tar = { version = "=0.4.46", default-features = false }
ureq = { version = "=3.5.1", default-features = false, features = ["json"] }
zstd = { version = "=0.13.4", default-features = false }
