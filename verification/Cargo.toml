[package]
name = "tcwm"
version = "0.1.0"
edition = "2021"
publish = false

[dependencies]
ncurses = "=5.101.0"
uuid = { version = "=1.29.0", features = ["v4"] }
