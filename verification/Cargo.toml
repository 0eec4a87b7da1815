[package]
name = "ventoy_toybox"
version = "0.1.0"
edition = "2021"
publish = false

[dependencies]
dirs = "=4.0.0"
eframe = { version = "=0.22.0", default-features = false, features = ["glow", "default_fonts"] }
ehttp = "=0.2.0"
poll-promise = "=0.2.1"
confy = "=0.5.1"
serde = { version = "=1.0.229", features = ["derive"] }
flate2 = "=1.1.10"
tar = "=0.4.46"
zip = { version = "=4.5.0", default-features = false, features = ["deflate"] }

[dev-dependencies]
tempfile = "=3.27.0"
