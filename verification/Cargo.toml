[package]
name = "orpc"
version = "0.1.0"
edition = "2021"
publish = false

[dependencies]
rand = "0.9"
snafu = "0.8"
eframe = { version = "0.37", default-features = false, features = ["glow", "x11"] }
egui = { version = "0.37", default-features = false }
