[package]
name = "autd3_simulator"
version = "0.1.0"
edition = "2021"
publish = false

[dependencies]
autd3-core = { version = "=38.1.0", default-features = false, features = ["link", "devices", "geometry", "ethercat"] }
autd3-driver = { version = "=38.1.0", default-features = false }
autd3-firmware-emulator = { version = "=38.1.0", default-features = false }
parking_lot = "=0.13.0"
winit = "=0.30.13"
glam = { version = "=0.34.1", features = ["serde"] }
serde = { version = "=1.0.229", features = ["derive"] }
serde_json = "=1.0.154"
