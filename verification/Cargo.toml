[package]
name = "simari"
version = "0.1.0"
edition = "2021"
publish = false

[dependencies]
anyhow = "1"
chrono = { version = "0.4", default-features = false, features = ["clock", "std"] }
egui = { version = "0.27", default-features = false, features = ["default_fonts"] }
rand = "0.8"
