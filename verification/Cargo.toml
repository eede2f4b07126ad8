[package]
name = "chess3d"
version = "0.1.0"
edition = "2021"
publish = false

[dependencies]
serde = { version = "1", features = ["derive"] }
serde_json = "1"
tempfile = "3"
directories = "6"
time = { version = "0.3", features = ["formatting"] }
rand = "0.9"
