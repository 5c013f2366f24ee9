[package]
name = "emoji_picker"
version = "0.1.0"
edition = "2021"
publish = false

[dependencies]
dbus = "0.9"
dirs = "5"
glib = "0.20"
gtk4 = "0.9"
serde = { version = "1", features = ["derive"] }
serde_json = "1"
