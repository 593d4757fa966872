[package]
name = "usb_timing_box_rs"
version = "0.1.0"
edition = "2021"
publish = false

[dependencies]
serialport = { version = "4", default-features = false }
thiserror = "2"
chrono = "0.4"
serde = { version = "1", features = ["derive"] }
schemars = "*"
