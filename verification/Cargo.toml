[package]
name = "sdrapp-ui"
version = "0.1.0"
edition = "2021"
publish = false

[dependencies]
serde_json = "1"
image = { version = "0.25", default-features = false, features = ["png"] }
egui = "0.29"
eframe = { version = "0.29", default-features = false, features = ["glow", "default_fonts"] }
crossbeam-channel = "0.5"
parking_lot = "0.12"
tokio = { version = "1", features = ["sync"] }
tracing = "0.1"
dirs = "5"
ureq = "2"
num-complex = "0.4"
