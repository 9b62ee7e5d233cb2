[package]
name = "screamshot"
version = "0.1.0"
edition = "2021"
publish = false

[dependencies]
image = { version = "=0.25.10", default-features = false, features = ["png"] }
serde = { version = "=1.0.229", features = ["derive"] }
serde_json = "=1.0.154"
chrono = { version = "=0.4.45", default-features = false, features = ["clock"] }
eframe = { version = "=0.37.0", default-features = false, features = ["glow", "x11", "default_fonts"] }
arboard = "=3.7.0"
gtk = "=0.18.2"
