[package]
name = "music_player"
version = "0.1.0"
edition = "2021"
publish = false

[dependencies]
anyhow = "1"
crossterm = "0.27"
id3 = "1"
rand = "0.8"
ratatui = "0.26"
rodio = "0.17"
walkdir = "2"
