[package]
name = "gbaemu_core"
version = "0.1.0"
edition = "2021"
publish = false

[dependencies]
armv4t_emu = "=0.1.3"
colorable = "*"
serde = { version = "=1.0.229", features = ["derive"] }
serde_json5 = "=0.2.1"
