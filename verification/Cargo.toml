[package]
name = "ciel_build"
version = "0.1.0"
edition = "2021"
publish = false

[dependencies]
anyhow = "1"
chrono = { version = "0.4", default-features = false, features = ["std"] }
console = "0.15"
walkdir = "2"
