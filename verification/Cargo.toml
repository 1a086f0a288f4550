[package]
name = "rust_streamer"
version = "0.1.0"
edition = "2021"
publish = false

[dependencies]
byte-slice-cast = "=1.2.3"
clap = { version = "=4.6.7", default-features = false, features = ["derive", "std", "help"] }
eframe = { version = "=0.36.2", default-features = false, features = ["glow", "default_fonts", "x11"] }
egui_extras = { version = "=0.36.2", default-features = false, features = ["image"] }
image = { version = "=0.25.10", default-features = false, features = ["jpeg"] }
message-io = "=0.19.0"
thiserror = "=2.0.21"
