[package]
name = "cartero"
version = "0.1.0"
edition = "2021"
publish = false

[dependencies]
serde_json = "1"
glib = "0.20"
gtk4 = { version = "0.9", features = ["v4_10"] }
libadwaita = { version = "0.7", features = ["v1_5"] }
sourceview5 = "0.9"
gettext-rs = { version = "0.7", features = ["gettext-system"] }
