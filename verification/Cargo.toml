[package]
name = "midi_studio_loader"
version = "0.1.0"
edition = "2021"
publish = false

[dependencies]
hidapi = "*"
serialport = "*"
sysinfo = "*"
serde = { version = "*", features = ["derive"] }
serde_json = "*"
clap = { version = "*", features = ["derive"] }
