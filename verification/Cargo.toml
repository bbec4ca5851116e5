[package]
name = "scrawler"
version = "0.1.0"
edition = "2021"
publish = false

[dependencies]
quick-xml = "0.37"
chrono = { version = "0.4", default-features = false, features = ["now"] }
serde = { version = "1", features = ["derive"] }
serde_json = "1"
serde_yaml = "0.9"
mlua = { version = "0.10", features = ["lua54", "vendored", "serialize"] }
dirs = "6"
ureq = { version = "2", default-features = false, features = ["tls"] }
arboard = { version = "3", default-features = false }
notify-rust = "4"
webbrowser = "1"
tungstenite = "0.26"
image = { version = "0.25", default-features = false, features = ["png", "gif"] }
eframe = { version = "*", default-features = false, features = ["glow", "x11", "default_fonts"] }
