[package]
name = "truth_store"
version = "0.1.0"
edition = "2021"
publish = false

[dependencies]
dirs = "*"
flate2 = "1"
log = "0.4"
reqwest = { version = "0.12", features = ["json"] }
serde = { version = "1", features = ["derive"] }
serde_json = "1"
walkdir = "2"
