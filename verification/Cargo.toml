[package]
name = "amazons"
version = "0.1.0"
edition = "2021"
publish = false

[dependencies]
eframe = { version = "0.16.0", features = ["persistence"] }
image = { version = "0.23", default-features = false, features = ["png"] }
serde = { version = "1", features = ["derive"] }
