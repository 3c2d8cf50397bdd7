[package]
name = "nudge"
version = "0.1.0"
edition = "2021"
publish = false

[dependencies]
clap = { version = "=4.6.7", features = ["derive"] }
iced = { version = "=0.14.0", default-features = false, features = ["tiny-skia", "tokio", "x11"] }
iced_layershell = { version = "=0.19.1", default-features = false }
iced_runtime = "=0.14.0"
signal-hook = "=0.3.18"
