[package]
name = "nemu"
version = "0.1.0"
edition = "2021"
publish = false

[dependencies]
fuzzy-matcher = "*"
emojis = "*"
freedesktop-desktop-entry = "*"
clap = { version = "4", features = ["derive"] }
serde = { version = "1", features = ["derive"] }
toml = "*"
tracing = "*"
tracing-subscriber = "*"
gtk4 = "*"
relm4 = "*"
gtk4-layer-shell = "*"
