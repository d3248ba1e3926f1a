[package]
name = "bobatea"
version = "0.1.0"
edition = "2021"
publish = false

[dependencies]
unicode-width = "0.2"
ratatui = "0.29"
crossterm = { version = "0.28", features = ["event-stream"] }
futures-signals = "0.3"
futures = "0.3"
tokio = { version = "1", features = ["rt-multi-thread", "macros", "time"] }
anyhow = "1"
colorsys = "0.6"
figlet-rs = "0.1"
rand = "0.9"
image = { version = "0.25", default-features = false, features = ["png", "jpeg"] }
