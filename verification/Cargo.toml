[package]
name = "system_panel"
version = "0.1.0"
edition = "2021"
publish = false

[dependencies]
chrono = "*"
futures = "*"
gtk4 = "*"
gtk4-layer-shell = "*"
hyprland = "*"
tokio = { version = "1", default-features = false, features = ["rt-multi-thread", "sync"] }
zbus = "*"
