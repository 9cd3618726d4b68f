[package]
name = "rplayer"
version = "0.1.0"
edition = "2021"
publish = false

[dependencies]
anyhow = "1"
clap = { version = "4", features = ["derive"] }
crossterm = "0.28"
dirs = "5"
rand = "0.9"
ratatui = "0.29"
rayon = "1"
rodio = "0.20"
serde = { version = "1", features = ["derive"] }
serde_json = "1"
symphonia = { version = "0.5", features = ["all"] }
toml = "0.8"
unicode-width = "0.2"
walkdir = "2"
