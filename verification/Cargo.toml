[package]
name = "maschine"
version = "0.1.0"
edition = "2021"
publish = false

[dependencies]
byteorder = "1"
rand = "0.8"
hidapi = { version = "2", default-features = false, features = ["linux-native-basic-udev"] }
clap = { version = "4", features = ["derive"] }
