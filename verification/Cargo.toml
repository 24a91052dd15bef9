[package]
name = "regvm"
version = "0.1.0"
edition = "2021"
publish = false

[dependencies]
eframe = { version = "=0.37.0", default-features = false, features = ["glow", "x11"] }
rust-i18n = "=4.2.4"
