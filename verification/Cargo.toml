[package]
name = "ut61eplus"
version = "0.1.0"
edition = "2021"
publish = false

[dependencies]
clap = { version = "=4.6.7", features = ["derive"] }
colored = "=3.1.1"
eframe = { version = "=0.36.2", default-features = false, features = ["glow", "x11"] }
egui_plot = "=0.37.0"
hidapi = { version = "=2.6.7", default-features = false, features = ["linux-native-basic-udev"] }
rand = "=0.10.3"
