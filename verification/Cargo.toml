[package]
name = "loco_pilot"
version = "0.1.0"
edition = "2021"
publish = false

[dependencies]
chrono = "*"
clap = { version = "*", features = ["derive"] }
colored = "*"
dirs = "*"
gix = "*"
once_cell = "*"
