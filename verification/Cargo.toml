[package]
name = "esp32-samples-reader"
version = "0.1.0"
edition = "2021"
publish = false

[dependencies]
anyhow = "1"
clap = { version = "4", features = ["derive"] }
hound = "3"
libpulse-binding = "2"
libpulse-simple-binding = "2"
nix = { version = "0.29", features = ["signal"] }
serialport = { version = "4", default-features = false }
