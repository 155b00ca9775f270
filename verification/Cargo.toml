[package]
name = "sidecar_supervisor"
version = "0.1.0"
edition = "2021"
publish = false

[dependencies]
command-group = "5.0.1"
tauri = { version = "2", default-features = false, features = ["wry"] }
