[package]
name = "qwerty"
version = "0.1.0"
edition = "2021"
publish = false

[dependencies]
chrono = { version = "=0.4.45", default-features = false, features = ["clock", "serde"] }
eframe = { version = "=0.31.1", default-features = false, features = ["glow", "default_fonts", "x11"] }
egui = { version = "=0.31.1", default-features = false, features = ["default_fonts"] }
egui-phosphor = "=0.9.0"
png = "=0.18.1"
rtrb = "=0.3.6"
rustfft = "=6.4.1"
serde = { version = "=1.0.229", features = ["derive"] }
serde_json = "=1.0.154"
uuid = { version = "=1.29.0", features = ["v4", "serde"] }
