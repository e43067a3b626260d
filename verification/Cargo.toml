[package]
name = "mp3_tui"
version = "0.1.0"
edition = "2021"
publish = false

[dependencies]
sled = "0.34"
rodio = "0.21"
ratatui = "0.29"
crossterm = "0.28"
color-eyre = "0.6"
