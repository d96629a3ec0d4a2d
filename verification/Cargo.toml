[package]
name = "egui_btleplug_example"
version = "0.1.0"
edition = "2021"
publish = false

[dependencies]
uuid = "=1.29.0"
btleplug = "=0.11.8"
libdbus-sys = { version = "=0.2.7", features = ["vendored"] }
tokio = { version = "=1.54.1", features = ["rt", "sync", "time"] }
serde = { version = "=1.0.229", features = ["derive"] }
egui = "=0.29.1"
