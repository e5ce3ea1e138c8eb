[package]
name = "nexa"
version = "0.1.0"
edition = "2021"
publish = false

[dependencies]
axum = { version = "0.8", default-features = false, features = ["http1", "json", "tokio"] }
crossterm = { version = "0.28", default-features = false, features = ["bracketed-paste", "events", "windows"] }
dirs = "6"
eframe = { version = "0.34", default-features = false, features = ["glow", "x11"] }
egui = { version = "0.34", default-features = false, features = ["default_fonts"] }
epaint_default_fonts = "0.34"
futures-util = { version = "0.3", default-features = false, features = ["std"] }
getrandom = "0.3"
ratatui = { version = "0.29", default-features = false, features = ["crossterm"] }
reqwest = { version = "0.12", default-features = false, features = ["json", "stream"] }
rfd = { version = "0.17", default-features = false, features = ["xdg-portal"] }
rpassword = "7"
serde = { version = "1", features = ["derive"] }
serde_json = "1"
sha2 = "0.10"
tempfile = "3"
tokio = { version = "1", features = ["full"] }
tokio-stream = "0.1"
toml = "0.9"
