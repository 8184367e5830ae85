[package]
name = "tune"
version = "0.1.0"
edition = "2021"
publish = false

[dependencies]
rand = "0.8"
dirs = "5"
crossterm = "0.28"
ratatui = "0.29"
rodio = "0.21"
lofty = "0.22"
walkdir = "2"
serde = { version = "1", features = ["derive"] }
serde_json = "1"
libc = "0.2"
