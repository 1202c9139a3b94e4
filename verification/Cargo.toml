[package]
name = "synth"
version = "0.1.0"
edition = "2021"
publish = false

[dependencies]
anyhow = "1"
cpal = "0.15"
macroquad = "0.4"
minimp3 = "0.5"
parking_lot = "0.12"
